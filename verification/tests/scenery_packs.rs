use scenable::parsers::inifile::ToIniFile;
use scenable::parsers::scenery_packs::{
    scenery_pack, scenery_pack_enabled, scenery_packs_ini, until_newline, version, ExpectedToken,
    SceneryPack, SceneryPacksIni,
};

#[test]
fn test_version() {
    assert_eq!(1000, version("1000 Version").unwrap().1);
    assert!(version("1000").is_err());
}

#[test]
fn test_scenery_pack_enabled() {
    assert!(scenery_pack_enabled("SCENERY_PACK").unwrap().1);
    assert!(!scenery_pack_enabled("SCENERY_PACK_DISABLED").unwrap().1);
}

#[test]
fn test_path_until_newline() {
    assert_eq!(
        "Custom Scenery/-Canberra_Beacons/",
        until_newline("Custom Scenery/-Canberra_Beacons/\n").unwrap().1
    );
}

#[test]
fn test_scenery_pack() {
    let enabled_pack = scenery_pack("SCENERY_PACK Custom Scenery/-Canberra_Beacons/\n")
        .unwrap()
        .1;
    assert!(enabled_pack.enabled);
    assert_eq!("Custom Scenery/-Canberra_Beacons/", enabled_pack.path);
    let disabled_pack =
        scenery_pack("SCENERY_PACK_DISABLED Custom Scenery/A New Zealand NZMC Mount Cook/\n")
            .unwrap()
            .1;
    assert!(!disabled_pack.enabled);
    assert_eq!(
        "Custom Scenery/A New Zealand NZMC Mount Cook/",
        disabled_pack.path
    );
}

#[test]
fn test_to_ini() {
    let pack1 = SceneryPack {
        enabled: true,
        path: "Example 1".to_string(),
    };

    let pack2 = SceneryPack {
        enabled: false,
        path: "Example 2".to_string(),
    };

    let scenery_packs_ini = SceneryPacksIni {
        version: 1000,
        scenery_packs: vec![pack1, pack2],
    };

    let mut buffer = String::new();

    scenery_packs_ini.write_ini(&mut buffer);

    let expected = "I\n1000 Version\nSCENERY\n\nSCENERY_PACK Example 1\nSCENERY_PACK_DISABLED Example 2\n";
    assert_eq!(expected, buffer)
}

/// The concrete decode scenario: the canonical sample document yields
/// version 1000 and its two entries in order.
#[test]
fn decode_concrete_document() {
    let text = "I\n1000 Version\nSCENERY\n\nSCENERY_PACK Custom Scenery/A\nSCENERY_PACK_DISABLED Custom Scenery/B\n";
    let ini = scenery_packs_ini(text).unwrap();
    assert_eq!(1000, ini.version);
    assert_eq!(2, ini.scenery_packs.len());
    assert!(ini.scenery_packs[0].enabled);
    assert_eq!("Custom Scenery/A", ini.scenery_packs[0].path);
    assert!(!ini.scenery_packs[1].enabled);
    assert_eq!("Custom Scenery/B", ini.scenery_packs[1].path);
}

/// Encoding then decoding restores the document: entries with embedded
/// spaces, both flags, and an arbitrary version survive the round trip.
#[test]
fn round_trip_restores_document() {
    let packs = vec![
        SceneryPack { enabled: true, path: "Custom Scenery/With Spaces In It/".to_string() },
        SceneryPack { enabled: false, path: "Custom Scenery/B".to_string() },
        SceneryPack { enabled: true, path: "z".to_string() },
        SceneryPack { enabled: false, path: " leading and trailing spaces ".to_string() },
    ];
    let original = SceneryPacksIni { version: 18446744073709551615, scenery_packs: packs };
    let mut text = String::new();
    original.write_ini(&mut text);
    let decoded = scenery_packs_ini(&text).unwrap();
    assert_eq!(original.version, decoded.version);
    assert_eq!(original.scenery_packs, decoded.scenery_packs);
}

/// The round trip with no entries at all.
#[test]
fn round_trip_empty_document() {
    let original = SceneryPacksIni { version: 0, scenery_packs: vec![] };
    let mut text = String::new();
    original.write_ini(&mut text);
    assert_eq!("I\n0 Version\nSCENERY\n\n", text);
    let decoded = scenery_packs_ini(&text).unwrap();
    assert_eq!(0, decoded.version);
    assert!(decoded.scenery_packs.is_empty());
}

/// The canonical layout: the encoding starts with `I\n` and carries
/// `SCENERY\n\n` immediately after the version line.
#[test]
fn encode_canonical_layout() {
    let ini = SceneryPacksIni {
        version: 942,
        scenery_packs: vec![SceneryPack { enabled: true, path: "p".to_string() }],
    };
    let mut text = String::new();
    ini.write_ini(&mut text);
    assert!(text.starts_with("I\n"));
    let after_version_line = "I\n942 Version\n".len();
    assert_eq!("SCENERY\n\n", &text[after_version_line..after_version_line + 9]);
}

/// Decoding is permissive about blank lines in the body, and accepts CRLF
/// line terminators and a missing final line break.
#[test]
fn decode_permissive_layouts() {
    let no_blank = "I\n10 Version\nSCENERY\nSCENERY_PACK a\n";
    assert_eq!(1, scenery_packs_ini(no_blank).unwrap().scenery_packs.len());

    let many_blanks = "I\n10 Version\nSCENERY\n\n\n\nSCENERY_PACK a\n\nSCENERY_PACK b\n\n";
    let ini = scenery_packs_ini(many_blanks).unwrap();
    assert_eq!(2, ini.scenery_packs.len());
    assert_eq!("a", ini.scenery_packs[0].path);
    assert_eq!("b", ini.scenery_packs[1].path);

    let crlf = "I\r\n10 Version\r\nSCENERY\r\n\r\nSCENERY_PACK_DISABLED c d\r\n";
    let ini = scenery_packs_ini(crlf).unwrap();
    assert_eq!(10, ini.version);
    assert_eq!(1, ini.scenery_packs.len());
    assert!(!ini.scenery_packs[0].enabled);
    assert_eq!("c d", ini.scenery_packs[0].path);

    let no_final_break = "I\n10 Version\nSCENERY\n\nSCENERY_PACK last one";
    let ini = scenery_packs_ini(no_final_break).unwrap();
    assert_eq!("last one", ini.scenery_packs[0].path);
}

/// Each decode failure reports the offset it stopped at and the token it
/// expected there.
#[test]
fn decode_error_offsets() {
    let err = scenery_packs_ini("").unwrap_err();
    assert_eq!((0, ExpectedToken::HeaderMarker), (err.offset, err.expected));

    let err = scenery_packs_ini("X\n1 Version\nSCENERY\n").unwrap_err();
    assert_eq!((0, ExpectedToken::HeaderMarker), (err.offset, err.expected));

    let err = scenery_packs_ini("I").unwrap_err();
    assert_eq!((1, ExpectedToken::LineBreak), (err.offset, err.expected));

    let err = scenery_packs_ini("I\nabc Version\n").unwrap_err();
    assert_eq!((2, ExpectedToken::VersionNumber), (err.offset, err.expected));

    // Twenty-one digits exceed the largest 64-bit value.
    let err = scenery_packs_ini("I\n184467440737095516159 Version\nSCENERY\n").unwrap_err();
    assert_eq!((2, ExpectedToken::VersionNumber), (err.offset, err.expected));

    let err = scenery_packs_ini("I\n1000 Xersion\nSCENERY\n").unwrap_err();
    assert_eq!((6, ExpectedToken::VersionKeyword), (err.offset, err.expected));

    let err = scenery_packs_ini("I\n1000 Version").unwrap_err();
    assert_eq!((14, ExpectedToken::LineBreak), (err.offset, err.expected));

    let err = scenery_packs_ini("I\n1000 Version\nWRONG\n").unwrap_err();
    assert_eq!((15, ExpectedToken::SceneryMarker), (err.offset, err.expected));

    let err = scenery_packs_ini("I\n1000 Version\nSCENERY").unwrap_err();
    assert_eq!((22, ExpectedToken::LineBreak), (err.offset, err.expected));

    let err = scenery_packs_ini("I\n1000 Version\nSCENERY\n\nJUNK LINE\n").unwrap_err();
    assert_eq!((24, ExpectedToken::EntryTag), (err.offset, err.expected));

    let err = scenery_packs_ini("I\n1000 Version\nSCENERY\n\nSCENERY_PACK_X y\n").unwrap_err();
    assert_eq!((36, ExpectedToken::EntrySeparator), (err.offset, err.expected));

    let err = scenery_packs_ini("I\n1000 Version\nSCENERY\n\nSCENERY_PACK \n").unwrap_err();
    assert_eq!((37, ExpectedToken::PathText), (err.offset, err.expected));

    // A carriage return not followed by a line feed is no line terminator.
    let err = scenery_packs_ini("I\n1000 Version\nSCENERY\n\nSCENERY_PACK a\rZ\n").unwrap_err();
    assert_eq!((38, ExpectedToken::LineBreak), (err.offset, err.expected));
}

/// The version parser reports where it failed.
#[test]
fn version_errors() {
    let err = version("nope").unwrap_err();
    assert_eq!((0, ExpectedToken::VersionNumber), (err.offset, err.expected));
    let err = version("12 Variant").unwrap_err();
    assert_eq!((2, ExpectedToken::VersionKeyword), (err.offset, err.expected));
}

/// An entry tag must be followed by a space and a non-empty path.
#[test]
fn scenery_pack_errors() {
    assert!(scenery_pack("SCENERY_PACK").is_err());
    assert!(scenery_pack("SCENERY_PACK \n").is_err());
    assert!(scenery_pack("OTHER x\n").is_err());
    assert!(until_newline("\nrest").is_err());
}
