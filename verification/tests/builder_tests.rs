use stm32_an3155::Builder;

#[test]
fn defaults_apply_when_nothing_is_chosen() {
    let builder = Builder::with_path("/dev/ttyUSB0");
    assert_eq!(builder.port_path(), "/dev/ttyUSB0");
    assert_eq!(builder.baud_rate(), 57_600);
    assert_eq!(builder.timeout_ms(), 1_000);
}

#[test]
fn chosen_values_override_defaults() {
    let builder = Builder::with_path("/dev/ttyACM1")
        .and_baud_rate(115_200)
        .and_timeout(250);
    assert_eq!(builder.port_path(), "/dev/ttyACM1");
    assert_eq!(builder.baud_rate(), 115_200);
    assert_eq!(builder.timeout_ms(), 250);
}
