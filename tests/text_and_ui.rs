use space_assets::text::{decode_text, inline_text, AssetPath, TextError};
use space_assets::ui::SelectGltfWindow;

#[test]
fn decode_text_reads_utf8() {
    let bytes = vec![0x68, 0xc3, 0xa9, 0x6c, 0x6c, 0x6f];
    assert_eq!(decode_text(bytes), Ok("héllo".to_string()));
    assert_eq!(decode_text(vec![]), Ok(String::new()));
}

#[test]
fn decode_text_rejects_invalid_bytes() {
    assert_eq!(decode_text(vec![0x61, 0xff]), Err(TextError::NotUtf8));
    assert_eq!(decode_text(vec![0xed, 0xa0, 0x80]), Err(TextError::NotUtf8));
}

#[test]
fn inline_text_handles_each_source() {
    assert_eq!(inline_text(&AssetPath::Text("shader".to_string())), Some(Ok("shader".to_string())));
    assert_eq!(inline_text(&AssetPath::Binary(b"light".to_vec())), Some(Ok("light".to_string())));
    assert_eq!(inline_text(&AssetPath::Binary(vec![0xc3])), Some(Err(TextError::NotUtf8)));
    assert_eq!(inline_text(&AssetPath::GlobalPath("res/a.wgsl".to_string())), None);
}

#[test]
fn select_window_keeps_its_files() {
    let files = vec!["res/a.gltf".to_string(), "res/b/c.gltf".to_string()];
    let window = SelectGltfWindow::new(files.clone());
    assert_eq!(window.files(), &files);
}
