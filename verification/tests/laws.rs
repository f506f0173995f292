use sample_export::connections::{decode_password, encode_password, save_connection, to_saved, ConnectionInput, StoredConnection};
use sample_export::export::csv::escape_csv;
use sample_export::query::quote_identifier;
use sample_export::rules::{push_export_rule, NormalizedExportTableRule};
use sample_export::types::ExportMode;
use sample_export::value::to_hex;

/// Reads a text quoted with `q` back: the outer quotes dropped, each doubled
/// `q` read as one; `None` where a lone `q` would end the quoting.
fn read_quoted(s: &str, q: char) -> Option<String> {
    let cs: Vec<char> = s.chars().collect();
    if cs.len() < 2 || cs[0] != q || cs[cs.len() - 1] != q {
        return None;
    }
    let inner = &cs[1..cs.len() - 1];
    let mut out = String::new();
    let mut i = 0;
    while i < inner.len() {
        if inner[i] == q {
            if i + 1 < inner.len() && inner[i + 1] == q {
                out.push(q);
                i += 2;
            } else {
                return None;
            }
        } else {
            out.push(inner[i]);
            i += 1;
        }
    }
    Some(out)
}

fn stored_with_secret(secret: &str) -> StoredConnection {
    StoredConnection {
        id: "k".to_string(),
        name: "n".to_string(),
        host: "h".to_string(),
        port: 3306,
        user: "u".to_string(),
        password_encrypted: secret.to_string(),
        ssl: None,
    }
}

#[test]
fn generated_id_has_the_uuid_form() {
    let item = ConnectionInput {
        id: None,
        name: "n".to_string(),
        host: "h".to_string(),
        port: 1,
        user: "u".to_string(),
        password: "p".to_string(),
        ssl: None,
    };
    let (_, saved) = save_connection(Vec::new(), item);
    let cs: Vec<char> = saved.id.chars().collect();
    assert_eq!(cs.len(), 36);
    for (i, c) in cs.iter().enumerate() {
        if i == 8 || i == 13 || i == 18 || i == 23 {
            assert_eq!(*c, '-');
        } else {
            assert!(c.is_ascii_digit() || ('a'..='f').contains(c), "{c} at {i}");
        }
    }
    assert_eq!(cs[14], '4');
}

#[test]
fn quoted_identifiers_read_back() {
    for value in ["plain", "a`b", "``", "`", "", "x``y`"] {
        let quoted = quote_identifier(value);
        assert_eq!(read_quoted(&quoted, '`'), Some(value.to_string()));
    }
    assert_eq!(quote_identifier("a`b"), "`a``b`");
    assert_eq!(quote_identifier(""), "``");
}

#[test]
fn csv_fields_read_back() {
    assert_eq!(escape_csv("ab"), "ab");
    assert_eq!(escape_csv("x\"y"), "\"x\"\"y\"");
    for value in ["ab", "a,b", "x\"y", "\"", "line\r\nend", ""] {
        let field = escape_csv(value);
        let read = if field.starts_with('"') { read_quoted(&field, '"') } else { Some(field.clone()) };
        assert_eq!(read, Some(value.to_string()));
    }
}

#[test]
fn hex_reads_back() {
    assert_eq!(to_hex(&[0x0f, 0xa0]), "0fa0");
    assert_eq!(to_hex(&[]), "");
    let bytes: Vec<u8> = (0..=255).collect();
    let text = to_hex(&bytes);
    assert_eq!(text.len(), 512);
    assert!(text.chars().all(|c| c.is_ascii_digit() || ('a'..='f').contains(&c)));
    for (i, b) in bytes.iter().enumerate() {
        assert_eq!(u8::from_str_radix(&text[2 * i..2 * i + 2], 16), Ok(*b));
    }
}

#[test]
fn stored_text_that_is_no_stored_password_gives_an_empty_one() {
    assert_eq!(to_saved(stored_with_secret("not base64!")).password, "");
    assert_eq!(to_saved(stored_with_secret("/w==")).password, "");
    assert_eq!(to_saved(stored_with_secret("YWJ")).password, "");
    assert_eq!(to_saved(stored_with_secret("YR==")).password, "");
    assert_eq!(to_saved(stored_with_secret(&encode_password("pw"))).password, "pw");
    assert_eq!(decode_password("YQ=="), "a");
}

#[test]
fn pushed_rules_stay_trimmed_and_distinct() {
    let mut rules: Vec<NormalizedExportTableRule> = Vec::new();
    push_export_rule(&mut rules, "  orders ", ExportMode::Full);
    push_export_rule(&mut rules, "orders", ExportMode::Sample);
    push_export_rule(&mut rules, "\tusers\n", ExportMode::Sample);
    push_export_rule(&mut rules, " undefined ", ExportMode::Sample);
    push_export_rule(&mut rules, "null", ExportMode::Full);
    push_export_rule(&mut rules, "   ", ExportMode::Full);
    assert_eq!(rules.len(), 2);
    assert_eq!(rules[0].table, "orders");
    assert_eq!(rules[0].mode, ExportMode::Full);
    assert_eq!(rules[1].table, "users");
    assert_eq!(rules[1].mode, ExportMode::Sample);
    for r in &rules {
        assert_eq!(r.table.trim(), r.table);
    }
}
