use tiger::steam::{library_with_game, CK3_APP_ID};

const VDF: &str = "\"libraryfolders\"\n{\n\t\"0\"\n\t{\n\t\t\"path\"\t\t\"/home/u/.local/share/Steam\"\n\t\t\"label\"\t\t\"\"\n\t\t\"apps\"\n\t\t{\n\t\t\t\"228980\"\t\t\"123\"\n\t\t}\n\t}\n\t\"1\"\n\t{\n\t\t\"path\"\t\t\"/mnt/games/SteamLibrary\"\r\n\t\t\"apps\"\n\t\t{\n\t\t\t\"1158310\"\t\t\"456\"\n\t\t}\n\t}\n}\n";

#[test]
fn finds_the_library_that_lists_the_game() {
    assert_eq!(CK3_APP_ID, "1158310");
    assert_eq!(library_with_game(VDF), Some("/mnt/games/SteamLibrary".to_string()));
}

#[test]
fn no_library_lists_the_game() {
    let vdf = VDF.replace("1158310", "999");
    assert_eq!(library_with_game(&vdf), None);
    assert_eq!(library_with_game(""), None);
}

#[test]
fn app_before_any_path_is_skipped() {
    let vdf = "\"1158310\" \"1\"\n\"path\" \"/a\"\n\"1158310\" \"2\"\n";
    assert_eq!(library_with_game(vdf), Some("/a".to_string()));
}

#[test]
fn only_two_word_lines_count() {
    // A path with a space in it has three words, so it is not taken.
    let vdf = "\"path\" \"/first\"\n\"path\" \"/My Games\"\n\"1158310\" \"2\"\n";
    assert_eq!(library_with_game(vdf), Some("/first".to_string()));
    // Quotes are trimmed from both ends of keys and values.
    let vdf = "path \"\"\"/q\"\"\n1158310 x\n";
    assert_eq!(library_with_game(vdf), Some("/q".to_string()));
}
