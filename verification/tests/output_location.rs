use sfx_core::output::default_output_location;

fn parts(json: &[u8]) -> (String, String, String) {
    let p = default_output_location(json);
    (p.root, p.category, p.file_name)
}

#[test]
fn meta_gives_the_place() {
    let json = br#"{"meta":{"name":"coin","category":"pickup"}}"#;
    assert_eq!(parts(json), ("output".to_string(), "pickup".to_string(), "coin.wav".to_string()));
}

#[test]
fn missing_meta_gives_defaults() {
    let json = br#"{"wave":{"type":"sine"}}"#;
    assert_eq!(parts(json), ("output".to_string(), "misc".to_string(), "output.wav".to_string()));
}

#[test]
fn non_string_fields_give_defaults() {
    let json = br#"{"meta":{"name":7,"category":"laser"}}"#;
    assert_eq!(parts(json), ("output".to_string(), "laser".to_string(), "output.wav".to_string()));
}

#[test]
fn invalid_json_gives_defaults() {
    assert_eq!(parts(b"{not json"), ("output".to_string(), "misc".to_string(), "output.wav".to_string()));
}
