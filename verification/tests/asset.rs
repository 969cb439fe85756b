use ink_narrative::error::NarrativeError;
use ink_narrative::ink::ink_asset::{InkAsset, InkAssetLoader};
use ink_narrative::states::GameMode;

#[test]
fn the_loader_reads_ink_files() {
    assert_eq!(InkAssetLoader.extensions(), &["ink"]);
}

#[test]
fn bytes_in_utf8_are_read_as_their_text() {
    let loader = InkAssetLoader;
    assert_eq!(loader.load(b"Hello\n"), Ok(InkAsset { story: "Hello\n".to_string() }));
    assert_eq!(loader.load(b""), Ok(InkAsset { story: String::new() }));
    assert_eq!(
        loader.load("Grüße 💜".as_bytes()),
        Ok(InkAsset { story: "Grüße 💜".to_string() })
    );
    assert_eq!(loader.load(&[0xE2, 0x82, 0xAC]), Ok(InkAsset { story: "€".to_string() }));
}

#[test]
fn bytes_that_are_not_utf8_are_refused() {
    let loader = InkAssetLoader;
    assert_eq!(loader.load(&[0xFF]), Err(NarrativeError::Load));
    assert_eq!(loader.load(&[b'a', 0xC3]), Err(NarrativeError::Load));
    assert_eq!(loader.load(&[0xC0, 0x80]), Err(NarrativeError::Load));
    assert_eq!(loader.load(&[0xED, 0xA0, 0x80]), Err(NarrativeError::Load));
    assert_eq!(loader.load(&[0xF4, 0x90, 0x80, 0x80]), Err(NarrativeError::Load));
}

#[test]
fn the_player_moves_only_while_exploring() {
    assert!(GameMode::Exploration.can_move());
    assert!(!GameMode::Conversation.can_move());
    assert!(!GameMode::Neither.can_move());
}
