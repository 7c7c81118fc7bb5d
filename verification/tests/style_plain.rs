use cargo_embed::style::{error_label, Status};

#[test]
fn labels_without_colour_end_in_one_column() {
    colored::control::set_override(false);
    assert_eq!(error_label(), "Error");
    for (status, label) in [
        (Status::Config("default".to_string()), "Config"),
        (Status::Target("a.elf".to_string()), "Target"),
        (Status::GdbListening(":1".to_string()), "GDB stub"),
        (Status::Done("default".to_string()), "Done"),
        (Status::HaltOptionMoved, "Warning"),
    ] {
        let line = status.render();
        assert_eq!(&line[..12], format!("{label:>12}"));
        assert_eq!(&line[12..13], " ");
    }
}
