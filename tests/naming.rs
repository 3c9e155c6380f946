use commedia::naming::{image_name, image_path, output_directory};
use commedia::session::{SessionFormat, SessionPath};

#[test]
fn image_names_are_padded() {
    assert_eq!(image_name(0, SessionFormat::BMP), "00000.bmp");
    assert_eq!(image_name(42, SessionFormat::PNG), "00042.png");
    assert_eq!(image_name(123456, SessionFormat::ProtoBuf), "123456.todo");
}

#[test]
fn image_paths_join_the_directory() {
    let p = SessionPath::Append("out".to_string());
    assert_eq!(output_directory(&p), "out");
    assert_eq!(image_path(&p, 7, SessionFormat::BMP), "out/00007.bmp");
    let p = SessionPath::Replace("/tmp/x".to_string());
    assert_eq!(image_path(&p, 99999, SessionFormat::PNG), "/tmp/x/99999.png");
}
