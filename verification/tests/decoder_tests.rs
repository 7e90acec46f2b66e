use qmm_syntax::errors::{
    HeaderError, LocationError, ParameterChangeError, ParameterError, ParsingError,
};
use qmm_syntax::formula::{FormulaError, FormulaErrorKind};
use qmm_syntax::header::HeaderParser;
use qmm_syntax::parse_qmm;
use qmm_syntax::player::{JumpState, QuestPlayer};
use qmm_syntax::primitive::PrimitiveParser;
use qmm_syntax::qstring::StringParser;
use qmm_syntax::markup::TextElementKind;
use qmm_syntax::types::{
    CompletionCondition, JumpId, JumpsLimit, LocationId, LocationType, MaxVisits, PlanetType,
    PlayerStatus, Race, Version,
};

fn push_i32(buf: &mut Vec<u8>, v: i32) {
    buf.extend_from_slice(&v.to_le_bytes());
}

fn push_empty_string(buf: &mut Vec<u8>) {
    push_i32(buf, 0);
}

fn push_utf16_string(buf: &mut Vec<u8>, s: &str) {
    let units: Vec<u16> = s.encode_utf16().collect();
    push_i32(buf, 1);
    push_i32(buf, units.len() as i32);
    for u in units {
        buf.extend_from_slice(&u.to_le_bytes());
    }
}

fn push_empty_media(buf: &mut Vec<u8>) {
    push_empty_string(buf);
    push_empty_string(buf);
    push_empty_string(buf);
}

/// The header fields after the magic and padding probe, with a declared
/// parameter count of zero.
fn push_header_body(buf: &mut Vec<u8>) {
    buf.push(0x10); // giver race: one known bit
    buf.push(0x01); // completion condition: immediately
    buf.push(0x40); // planet type: uninhabited
    buf.push(0x07); // player status: all three bits
    buf.push(0x1F); // player race: all five bits
    buf.extend_from_slice(&[0x05, 0x00, 0x00, 0x00]); // relation change: +5
    buf.extend_from_slice(&[0; 16]); // screen and grid sizes, skipped
    push_i32(buf, 1); // default jumps limit: bound of one
    push_i32(buf, 70); // difficulty
    push_i32(buf, 0); // parameters count
}

fn minimal_header() -> Vec<u8> {
    let mut buf = vec![0xD6, 0x35, 0x3A, 0x42]; // QMM6 magic
    buf.push(0x01);
    buf.extend_from_slice(&[0; 11]); // the version padding block
    push_header_body(&mut buf);
    buf
}

/// A minimal well-formed buffer: no parameters, one starting location with
/// one empty presentation slot, and a declared jump count of `jumps`.
fn minimal_quest_buffer(with_jump: bool) -> Vec<u8> {
    let mut buf = minimal_header();
    // String replacements: seven absent strings.
    for _ in 0..7 {
        push_empty_string(&mut buf);
    }
    // Info block.
    push_i32(&mut buf, 1); // locations count
    push_i32(&mut buf, if with_jump { 1 } else { 0 }); // jumps count
    push_empty_string(&mut buf); // success text
    push_utf16_string(&mut buf, "<Ranger>!"); // task text
    // The one location.
    push_i32(&mut buf, 0); // day-advance flag
    push_i32(&mut buf, 0); // coordinate, skipped
    push_i32(&mut buf, 0); // coordinate, skipped
    push_i32(&mut buf, 1); // identifier
    push_i32(&mut buf, 0); // visit limit: unbounded
    buf.push(0x01); // type: starting
    push_i32(&mut buf, 0); // parameter-change count
    push_i32(&mut buf, 1); // presentation slot count
    push_empty_string(&mut buf); // slot text
    push_empty_media(&mut buf); // slot media
    buf.push(0x00); // selection policy: fixed order
    push_empty_string(&mut buf); // selection formula text
    if with_jump {
        buf.extend_from_slice(&[0; 8]); // priority
        push_i32(&mut buf, 0); // day-advance flag
        push_i32(&mut buf, 2); // identifier
        push_i32(&mut buf, 1); // source location
        push_i32(&mut buf, 2); // destination location
        buf.push(0x00); // always shown
        push_i32(&mut buf, 0); // visit limit
        push_i32(&mut buf, 5); // display order
        push_i32(&mut buf, 0); // condition count
        push_i32(&mut buf, 0); // parameter-change count
        push_empty_string(&mut buf); // gating formula
        push_empty_string(&mut buf); // display text
        push_empty_string(&mut buf); // description
        push_empty_media(&mut buf);
    }
    buf
}

#[test]
fn round_trip_minimal_document() {
    let buf = minimal_quest_buffer(false);
    let quest = parse_qmm(&buf).unwrap();
    assert_eq!(quest.header.version, Version::Qmm6);
    assert_eq!(quest.header.giver_race, Race { bits: 0x10 });
    assert_eq!(
        quest.header.completion_condition,
        CompletionCondition::Immediately
    );
    assert_eq!(quest.header.quest_planet_type, PlanetType::Uninhabited);
    assert_eq!(quest.header.player_status, PlayerStatus::all());
    assert_eq!(quest.header.player_race, Race::all());
    assert_eq!(quest.header.relation_change, 5);
    assert_eq!(quest.header.default_jumps_limit, JumpsLimit::Limit(1));
    assert_eq!(quest.header.difficult, 70);
    assert_eq!(quest.header.parameters_count, 0);
    assert_eq!(quest.parameters.len(), 0);
    assert_eq!(quest.info.locations_count, 1);
    assert_eq!(quest.info.jumps_count, 0);
    assert_eq!(quest.locations.len(), 1);
    assert_eq!(quest.jumps.len(), 0);
    let location = &quest.locations[0];
    assert_eq!(location.ty, LocationType::Starting);
    assert_eq!(location.id, LocationId(1));
    assert_eq!(location.max_visits, MaxVisits::Infinite);
    assert!(location.parameter_changes.is_empty());
    assert_eq!(location.texts.len(), 1);
}

#[test]
fn extra_byte_is_expected_end() {
    let mut buf = minimal_quest_buffer(false);
    buf.push(0x00);
    assert_eq!(
        parse_qmm(&buf).unwrap_err(),
        (ParsingError::ExpectedEnd));
}

#[test]
fn truncation_is_incomplete() {
    let full = minimal_quest_buffer(false);
    let mut buf = full.clone();
    buf.pop();
    assert_eq!(
        parse_qmm(&buf).unwrap_err(),
        (ParsingError::Incomplete));
    // Any other cut gives a decode error too; an early cut lands inside the
    // header.
    assert_eq!(
        parse_qmm(&full[..10]).unwrap_err(),
        (ParsingError::Incomplete));
}

#[test]
fn version_probe_consumes_padding_only_when_present() {
    let with_pad = minimal_header();
    let mut pos = 0;
    let header_a = HeaderParser::parse(&with_pad, &mut pos).unwrap();
    let pos_with_pad = pos;

    let mut without_pad = vec![0xD6, 0x35, 0x3A, 0x42];
    push_header_body(&mut without_pad);
    pos = 0;
    let header_b = HeaderParser::parse(&without_pad, &mut pos).unwrap();
    assert_eq!(header_a, header_b);
    assert_eq!(pos_with_pad, pos + 12);
}

#[test]
fn relation_change_sign_triples() {
    let mut negative = minimal_header();
    negative[22] = 0xFF;
    negative[23] = 0xFF;
    negative[24] = 0xFF;
    let mut pos = 0;
    let header = HeaderParser::parse(&negative, &mut pos).unwrap();
    assert_eq!(header.relation_change, -5);

    let positive = minimal_header();
    pos = 0;
    let header = HeaderParser::parse(&positive, &mut pos).unwrap();
    assert_eq!(header.relation_change, 5);

    let mut mixed = minimal_header();
    mixed[22] = 0xFF;
    pos = 0;
    assert_eq!(
        HeaderParser::parse(&mixed, &mut pos),
        Err(ParsingError::InvalidHeader(
            HeaderError::InvalidRelationChange
        ))
    );
}

#[test]
fn header_tag_errors() {
    let mut bad_magic = minimal_header();
    bad_magic[0] = 0x00;
    assert_eq!(
        parse_qmm(&bad_magic).unwrap_err(),
        (ParsingError::InvalidHeader(HeaderError::InvalidMagic))
    );

    let mut bad_giver = minimal_header();
    bad_giver[16] = 0xFF;
    assert_eq!(
        parse_qmm(&bad_giver).unwrap_err(),
        (ParsingError::InvalidHeader(
            HeaderError::InvalidQuestGiverRace
        ))
    );

    let mut bad_condition = minimal_header();
    bad_condition[17] = 0x09;
    assert_eq!(
        parse_qmm(&bad_condition).unwrap_err(),
        (ParsingError::InvalidHeader(
            HeaderError::InvalidCompletionCondition
        ))
    );

    let mut bad_planet = minimal_header();
    bad_planet[18] = 0x60;
    assert_eq!(
        parse_qmm(&bad_planet).unwrap_err(),
        (ParsingError::InvalidHeader(
            HeaderError::InvalidQuestPlanetType
        ))
    );

    let mut bad_status = minimal_header();
    bad_status[19] = 0xF8;
    assert_eq!(
        parse_qmm(&bad_status).unwrap_err(),
        (ParsingError::InvalidHeader(HeaderError::InvalidPlayerStatus))
    );

    let mut bad_race = minimal_header();
    bad_race[20] = 0xE0;
    assert_eq!(
        parse_qmm(&bad_race).unwrap_err(),
        (ParsingError::InvalidHeader(HeaderError::InvalidPlayerRace))
    );
}

#[test]
fn primitive_reads() {
    let buf = [0x2A, 0x00, 0x00, 0x80];
    let mut pos = 0;
    assert_eq!(
        PrimitiveParser::parse_i32(&buf, &mut pos),
        Ok(i32::from_le_bytes(buf))
    );
    assert_eq!(pos, 4);

    pos = 0;
    assert_eq!(PrimitiveParser::parse_byte(&buf, &mut pos), Ok(0x2A));
    assert_eq!(pos, 1);

    pos = 0;
    assert_eq!(
        PrimitiveParser::parse_i32(&buf[..3], &mut pos),
        Err(ParsingError::Incomplete)
    );

    let bools = [0x00, 0x01, 0x02];
    pos = 0;
    assert_eq!(PrimitiveParser::parse_bool(&bools, &mut pos), Ok(false));
    assert_eq!(pos, 1);
    assert_eq!(PrimitiveParser::parse_bool(&bools, &mut pos), Ok(true));
    assert_eq!(pos, 2);
    assert_eq!(
        PrimitiveParser::parse_bool(&bools, &mut pos),
        Err(ParsingError::InvalidBool)
    );
    // The invalid byte is consumed before it is rejected.
    assert_eq!(pos, 3);
    assert_eq!(
        PrimitiveParser::parse_bool(&bools, &mut pos),
        Err(ParsingError::Incomplete)
    );
    assert_eq!(pos, 3);

    let double = 1.5f64.to_le_bytes();
    pos = 0;
    assert_eq!(
        PrimitiveParser::parse_f64_bits(&double, &mut pos),
        Ok(1.5f64.to_bits())
    );
}

#[test]
fn string_reader_decodes_utf16() {
    // "Ab" as little-endian UTF-16 after the presence flag and unit count.
    let buf = [
        0x01, 0x00, 0x00, 0x00, 0x02, 0x00, 0x00, 0x00, 0x41, 0x00, 0x62, 0x00,
    ];
    let mut pos = 0;
    assert_eq!(StringParser::parse(&buf, &mut pos), Ok("Ab".to_string()));
    assert_eq!(pos, buf.len());

    // A surrogate pair decodes to one character.
    let pair = [
        0x01, 0x00, 0x00, 0x00, 0x02, 0x00, 0x00, 0x00, 0x3D, 0xD8, 0x00, 0xDE,
    ];
    pos = 0;
    assert_eq!(
        StringParser::parse(&pair, &mut pos),
        Ok("\u{1F600}".to_string())
    );

    // A lone surrogate is invalid text.
    let lone = [
        0x01, 0x00, 0x00, 0x00, 0x01, 0x00, 0x00, 0x00, 0x00, 0xD8,
    ];
    pos = 0;
    assert_eq!(
        StringParser::parse(&lone, &mut pos),
        Err(ParsingError::InvalidString)
    );

    // A zero presence flag is the empty string with nothing further read.
    let absent = [0x00, 0x00, 0x00, 0x00, 0xFF];
    pos = 0;
    assert_eq!(StringParser::parse(&absent, &mut pos), Ok(String::new()));
    assert_eq!(pos, 4);
}

#[test]
fn record_tag_errors() {
    // A parameter with an unknown type tag.
    let mut buf = minimal_header();
    let count_at = buf.len() - 4;
    buf[count_at] = 1; // one parameter follows
    push_i32(&mut buf, 0); // min
    push_i32(&mut buf, 10); // max
    buf.push(0x09); // unknown type tag
    assert_eq!(
        parse_qmm(&buf).unwrap_err(),
        (ParsingError::InvalidParameter(ParameterError::InvalidType))
    );

    // A parameter with an unknown critical-value tag.
    let mut buf = minimal_header();
    let count_at = buf.len() - 4;
    buf[count_at] = 1;
    push_i32(&mut buf, 0);
    push_i32(&mut buf, 10);
    buf.push(0x00); // type: ordinary
    buf.extend_from_slice(&[0, 0, 0]); // structural zero bytes
    buf.push(0x01); // show when zero
    buf.push(0x07); // unknown critical-value tag
    assert_eq!(
        parse_qmm(&buf).unwrap_err(),
        (ParsingError::InvalidParameter(
            ParameterError::InvalidCriticalValue
        ))
    );

    // A location with an unknown type tag.
    let mut buf = minimal_quest_buffer(false);
    let full = minimal_quest_buffer(false);
    let location_type_at = full.len()
        - 4  // selection formula
        - 1  // selection policy
        - 12 // slot media
        - 4  // slot text
        - 4  // slot count
        - 4  // parameter-change count
        - 1; // the type byte
    buf[location_type_at] = 0x09;
    assert_eq!(
        parse_qmm(&buf).unwrap_err(),
        (ParsingError::InvalidLocation(
            LocationError::InvalidLocationType
        ))
    );
}

#[test]
fn parameter_change_tag_errors() {
    // One location parameter-change with an unknown show-type tag.
    let mut buf = minimal_header();
    for _ in 0..7 {
        push_empty_string(&mut buf);
    }
    push_i32(&mut buf, 1); // locations count
    push_i32(&mut buf, 0); // jumps count
    push_empty_string(&mut buf);
    push_empty_string(&mut buf);
    push_i32(&mut buf, 0); // day-advance
    push_i32(&mut buf, 0);
    push_i32(&mut buf, 0);
    push_i32(&mut buf, 1); // identifier
    push_i32(&mut buf, 0); // visit limit
    buf.push(0x01); // starting
    push_i32(&mut buf, 1); // one parameter change
    push_i32(&mut buf, 3); // target parameter
    push_i32(&mut buf, 0); // skipped field
    let mut bad_show = buf.clone();
    bad_show.push(0x09);
    assert_eq!(
        parse_qmm(&bad_show).unwrap_err(),
        (ParsingError::InvalidParameterChange(
            ParameterChangeError::InvalidShowType
        ))
    );

    let mut bad_change = buf.clone();
    bad_change.push(0x01); // show
    bad_change.push(0x09); // unknown change kind
    assert_eq!(
        parse_qmm(&bad_change).unwrap_err(),
        (ParsingError::InvalidParameterChange(
            ParameterChangeError::InvalidChangeType
        ))
    );

    // A malformed change formula is fatal and carries its source text.
    let mut bad_formula = buf.clone();
    bad_formula.push(0x01); // show
    bad_formula.push(0x03); // formula-driven
    push_utf16_string(&mut bad_formula, "x");
    assert_eq!(
        parse_qmm(&bad_formula).unwrap_err(),
        (ParsingError::InvalidFormula {
            error: FormulaError {
                position: 0,
                kind: FormulaErrorKind::UnexpectedToken {
                    found: 'x',
                    expected: None
                }
            },
            formula: "x".to_string()
        })
    );
}

#[test]
fn player_on_minimal_quest() {
    let buf = minimal_quest_buffer(true);
    let quest = parse_qmm(&buf).unwrap();
    assert_eq!(quest.jumps.len(), 1);
    assert_eq!(quest.jumps[0].from, LocationId(1));
    assert_eq!(quest.jumps[0].to, LocationId(2));
    assert_eq!(quest.jumps[0].priority, 0);
    assert_eq!(quest.jumps[0].show_order, 5);

    assert!(!quest.locations[0].texts.is_empty());
    let player = QuestPlayer::new(&quest, 1).unwrap();
    assert_eq!(player.state().location.id, LocationId(1));
    let jumps: &Vec<JumpState> = &player.state().jumps;
    assert_eq!(jumps.len(), 1);
    assert_eq!(jumps[0].id, JumpId(2));
    assert!(jumps[0].available);

    // The task text "<Ranger>!" has its variable substituted from the
    // default table; the literal tail stays unchanged.
    let task = player.task_text();
    assert_eq!(task.elements.len(), 2);
    assert!(matches!(
        task.elements[0].kind,
        TextElementKind::Variable { .. }
    ));
    assert_eq!(task.elements[0].value, "Греф");
    assert_eq!(task.elements[1].value, "!");
}
