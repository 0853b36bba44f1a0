use capgate::registry::get_cluster_name;
use capgate::registry::get_command_name;

#[test]
fn cluster_names_recognized() {
    assert_eq!(get_cluster_name(0x06), Some("onoff"));
    assert_eq!(get_cluster_name(0x08), Some("levelcontrol"));
    assert_eq!(get_cluster_name(0x300), Some("colorcontrol"));
}

#[test]
fn cluster_names_unrecognized() {
    assert_eq!(get_cluster_name(0), None);
    assert_eq!(get_cluster_name(5), None);
    assert_eq!(get_cluster_name(7), None);
    assert_eq!(get_cluster_name(999), None);
    assert_eq!(get_cluster_name(u32::MAX), None);
}

#[test]
fn command_names_onoff() {
    assert_eq!(get_command_name(0x06, 0x00), Some("off"));
    assert_eq!(get_command_name(0x06, 0x01), Some("on"));
    assert_eq!(get_command_name(0x06, 0x02), Some("toggle"));
}

#[test]
fn command_names_levelcontrol() {
    assert_eq!(get_command_name(0x08, 0x00), Some("move-to-level"));
    assert_eq!(get_command_name(0x08, 0x01), Some("move"));
    assert_eq!(get_command_name(0x08, 0x02), Some("step"));
    assert_eq!(get_command_name(0x08, 0x03), Some("stop"));
    assert_eq!(get_command_name(0x08, 0x04), Some("move-to-level-with-on-off"));
    assert_eq!(get_command_name(0x08, 0x05), Some("move-with-on-off"));
    assert_eq!(get_command_name(0x08, 0x06), Some("step-with-on-off"));
    assert_eq!(get_command_name(0x08, 0x07), Some("stop-with-on-off"));
    assert_eq!(get_command_name(0x08, 0x08), Some("move-to-closest-frequency"));
}

#[test]
fn command_names_colorcontrol() {
    assert_eq!(get_command_name(0x300, 0x00), Some("move-to-hue"));
    assert_eq!(get_command_name(0x300, 0x01), Some("move-hue"));
    assert_eq!(get_command_name(0x300, 0x02), Some("step-hue"));
    assert_eq!(get_command_name(0x300, 0x03), Some("move-to-saturation"));
    assert_eq!(get_command_name(0x300, 0x04), Some("move-saturation"));
    assert_eq!(get_command_name(0x300, 0x05), Some("step-saturation"));
    assert_eq!(get_command_name(0x300, 0x06), Some("move-to-hue-and-saturation"));
    assert_eq!(get_command_name(0x300, 0x07), Some("move-to-color"));
    assert_eq!(get_command_name(0x300, 0x08), Some("move-color"));
    assert_eq!(get_command_name(0x300, 0x09), Some("step-color"));
    assert_eq!(get_command_name(0x300, 0x0A), Some("move-to-color-temperature"));
    assert_eq!(get_command_name(0x300, 0x40), Some("enhanced-move-to-hue"));
    assert_eq!(get_command_name(0x300, 0x41), Some("enhanced-move-hue"));
    assert_eq!(get_command_name(0x300, 0x42), Some("enhanced-step-hue"));
    assert_eq!(get_command_name(0x300, 0x43), Some("enhanced-move-to-hue-and-saturation"));
    assert_eq!(get_command_name(0x300, 0x44), Some("color-loop-set"));
    assert_eq!(get_command_name(0x300, 0x47), Some("stop-move-set"));
    assert_eq!(get_command_name(0x300, 0x4B), Some("move-color-temperature"));
    assert_eq!(get_command_name(0x300, 0x4C), Some("step-color-temperature"));
}

#[test]
fn command_names_unrecognized() {
    assert_eq!(get_command_name(0x06, 0x03), None);
    assert_eq!(get_command_name(0x08, 0x09), None);
    assert_eq!(get_command_name(0x300, 0x0B), None);
    assert_eq!(get_command_name(0x300, 0x45), None);
    assert_eq!(get_command_name(0x300, 0x4D), None);
    assert_eq!(get_command_name(999, 0), None);
    assert_eq!(get_command_name(0x07, 0x01), None);
}
