use hotfix_core::message::{encode_message, FieldError, Message, RepeatingGroup};
use hotfix_message::{Field, Part, TagU32};

fn pipe(s: &str) -> Vec<u8> {
    s.as_bytes().to_vec()
}

fn order_message() -> Message {
    let mut m = Message::new("D".to_string());
    m.insert(55, "EUR/USD".to_string()).unwrap();
    m.insert(54, "1".to_string()).unwrap();
    m
}

/// Splits a frame into (tag, value) pairs at `sep`.
fn fields_of(frame: &[u8], sep: u8) -> Vec<(String, String)> {
    frame
        .split(|b| *b == sep)
        .filter(|f| !f.is_empty())
        .map(|f| {
            let s = String::from_utf8(f.to_vec()).unwrap();
            let (t, v) = s.split_once('=').unwrap();
            (t.to_string(), v.to_string())
        })
        .collect()
}

#[test]
fn encodes_order_example_exactly() {
    let out = encode_message(&order_message(), "FIX.4.4", b'|');
    assert_eq!(out, pipe("8=FIX.4.4|9=21|35=D|55=EUR/USD|54=1|10=211|"));
}

#[test]
fn example_fields_in_relative_order_with_valid_checksum() {
    let out = encode_message(&order_message(), "FIX.4.4", b'|');
    let fields = fields_of(&out, b'|');
    assert_eq!(fields[0], ("8".to_string(), "FIX.4.4".to_string()));
    let p55 = fields.iter().position(|f| f.0 == "55").unwrap();
    let p54 = fields.iter().position(|f| f.0 == "54").unwrap();
    assert_eq!(fields[p55].1, "EUR/USD");
    assert_eq!(fields[p54].1, "1");
    assert!(p55 < p54);
    let sum: u32 = out[..out.len() - 7].iter().map(|b| *b as u32).sum();
    assert_eq!(fields.last().unwrap().1, format!("{:03}", sum % 256));
}

#[test]
fn matches_hotfix_message_encoder() {
    let m = order_message();
    let ours = encode_message(&m, "FIX.4.4", b'|');
    let mut theirs = hotfix_message::message::Message::new("FIX.4.4", "D");
    theirs
        .get_field_map_mut()
        .insert(Field::new(TagU32::new(55).unwrap(), b"EUR/USD".to_vec()));
    theirs
        .get_field_map_mut()
        .insert(Field::new(TagU32::new(54).unwrap(), b"1".to_vec()));
    let config = hotfix_message::message::Config::with_separator(b'|');
    assert_eq!(ours, theirs.encode(&config).unwrap());
}

#[test]
fn insertion_order_is_kept_in_body() {
    let mut m = Message::new("D".to_string());
    m.insert(58, "c".to_string()).unwrap();
    m.insert(11, "a".to_string()).unwrap();
    m.insert(38, "b".to_string()).unwrap();
    let out = encode_message(&m, "FIX.4.2", b'|');
    assert_eq!(out[..out.len() - 7].to_vec(), pipe("8=FIX.4.2|9=20|35=D|58=c|11=a|38=b|"));
}

#[test]
fn overwrite_keeps_position() {
    let mut m = Message::new("D".to_string());
    m.insert(11, "a".to_string()).unwrap();
    m.insert(38, "b".to_string()).unwrap();
    m.insert(11, "zz".to_string()).unwrap();
    let out = encode_message(&m, "FIX.4.4", b'|');
    let tags: Vec<String> = fields_of(&out, b'|').into_iter().map(|f| format!("{}={}", f.0, f.1)).collect();
    assert_eq!(tags[3..5].to_vec(), vec!["11=zz".to_string(), "38=b".to_string()]);
}

#[test]
fn zero_tag_is_rejected() {
    let mut m = order_message();
    let before = encode_message(&m, "FIX.4.4", b'|');
    assert_eq!(m.insert(0, "x".to_string()), Err(FieldError::InvalidTag));
    assert_eq!(encode_message(&m, "FIX.4.4", b'|'), before);
    assert!(RepeatingGroup::new(0, 448).is_err());
    assert!(RepeatingGroup::new(453, 0).is_err());
    let mut g = RepeatingGroup::new(453, 448).unwrap();
    assert_eq!(g.append(0, "x".to_string()), Err(FieldError::InvalidTag));
}

#[test]
fn empty_group_list_writes_nothing() {
    let mut m = order_message();
    let before = encode_message(&m, "FIX.4.4", b'|');
    assert_eq!(m.insert_groups(453, Vec::new()), Ok(()));
    assert_eq!(m.insert_groups(0, Vec::new()), Ok(()));
    assert_eq!(encode_message(&m, "FIX.4.4", b'|'), before);
}

fn party(id: &str) -> RepeatingGroup {
    let mut g = RepeatingGroup::new(453, 448).unwrap();
    g.append(448, id.to_string()).unwrap();
    g.append(447, "D".to_string()).unwrap();
    g
}

#[test]
fn groups_follow_their_count() {
    let mut m = Message::new("D".to_string());
    m.insert_groups(453, vec![party("A"), party("B")]).unwrap();
    let out = encode_message(&m, "FIX.4.4", b'|');
    assert_eq!(out, pipe("8=FIX.4.4|9=35|35=D|453=2|448=A|447=D|448=B|447=D|10=079|"));
}

#[test]
fn groups_replace_earlier_registration() {
    let mut m = Message::new("D".to_string());
    m.insert(55, "X".to_string()).unwrap();
    m.insert_groups(453, vec![party("A"), party("B")]).unwrap();
    m.insert(54, "1".to_string()).unwrap();
    m.insert_groups(453, vec![party("C")]).unwrap();
    assert_eq!(m.insert_groups(0, vec![party("D")]), Err(FieldError::InvalidTag));
    let out = encode_message(&m, "FIX.4.4", b'|');
    let body = fields_of(&out, b'|');
    let shown: Vec<String> = body[3..body.len() - 1].iter().map(|f| format!("{}={}", f.0, f.1)).collect();
    assert_eq!(shown, vec!["55=X", "453=1", "448=C", "447=D", "54=1"]);
}

#[test]
fn group_append_overwrites_in_place() {
    let mut g = party("A");
    g.append(448, "Z".to_string()).unwrap();
    let mut m = Message::new("D".to_string());
    m.insert_groups(453, vec![g]).unwrap();
    let out = encode_message(&m, "FIX.4.4", b'|');
    let body = fields_of(&out, b'|');
    assert_eq!(body[4], ("448".to_string(), "Z".to_string()));
    assert_eq!(body[5], ("447".to_string(), "D".to_string()));
}

#[test]
fn encoding_is_deterministic() {
    let m = order_message();
    assert_eq!(encode_message(&m, "FIX.4.4", 1), encode_message(&m, "FIX.4.4", 1));
}

#[test]
fn body_length_and_checksum_are_consistent() {
    let mut m = Message::new("AB".to_string());
    m.insert(1, "acct".to_string()).unwrap();
    m.insert_groups(453, vec![party("A")]).unwrap();
    let out = encode_message(&m, "FIX.4.4", 1);
    let fields = fields_of(&out, 1);
    assert_eq!(fields[1].0, "9");
    let header_len = "8=FIX.4.4".len() + 1 + 2 + fields[1].1.len() + 1;
    let body_len: usize = fields[1].1.parse().unwrap();
    assert_eq!(body_len, out.len() - header_len - 7);
    let sum: u32 = out[..out.len() - 7].iter().map(|b| *b as u32).sum();
    assert_eq!(out[out.len() - 7..].to_vec(), format!("10={:03}\u{1}", sum % 256).into_bytes());
}

#[test]
fn message_type_is_kept() {
    let m = Message::new("8".to_string());
    assert_eq!(m.message_type(), "8");
}
