use sample_export::catalog::{
    connection_options, create_table_sql_from_rows, databases_from_rows, query_table_data, sample_data_query,
    structure_from_rows, table_info, ConnectionConfig,
};
use sample_export::connections::{
    decode_password, delete_connection, encode_password, list_connections, save_connection, save_connection_with_id,
    to_saved, ConnectionInput, StoredConnection,
};
use sample_export::export::common::{count_export_mode, export_data_heading, export_mode_label, export_mode_value, write_line, write_text};
use sample_export::export::content::{write_export_content, ExportContent};
use sample_export::export::csv::{escape_csv, escape_csv_value, generate_csv_export, generate_multi_csv_export, write_csv_export_content};
use sample_export::export::json::{format_multi_json_export, write_json_export_content, JsonExport};
use sample_export::export::markdown::{
    escape_markdown_cell, generate_multi_markdown_export, markdown_value, write_markdown_export_content,
};
use sample_export::export::sql::{format_sql_value, generate_multi_sql_export, generate_sql_export, write_sql_export_content};
use sample_export::masking::{column_kind_of_forms, has_ascii_token, mask_password_value, mask_phone_text, mask_phone_value, sensitive_column_kind, SensitiveColumnKind};
use sample_export::object::{object_get_string, object_get_string_opt, object_get_u64, parse_u64, row_to_object, JsonObject, SqlRow};
use sample_export::query::{build_select_query, create_table_query, full_columns_query, quote_identifier, sanitize_limit};
use sample_export::rules::{normalize_export_table_rules, ExportOptions, ExportTableRule};
use sample_export::text::trim_str;
use sample_export::timefmt::{format_rfc3339_export_time, format_sql_export_time, format_sql_time_fields, SQL_EXPORT_OFFSET_HOURS};
use sample_export::types::{ExportFormat, ExportMode, ExportTableData, SampleData};
use sample_export::value::{bytes_to_string, to_hex, value_to_json, value_to_plain_string, CellValue, SqlValue};

fn table(name: &str, mode: ExportMode, rows: Vec<Vec<CellValue>>) -> ExportTableData {
    ExportTableData {
        name: name.to_string(),
        export_mode: mode,
        create_sql: format!("CREATE TABLE `{name}` (`id` int);;"),
        structure: Vec::new(),
        sample: SampleData { columns: vec!["id".to_string(), "note".to_string()], rows },
    }
}

fn text(s: &str) -> CellValue {
    CellValue::String(s.to_string())
}

fn number(s: &str) -> CellValue {
    CellValue::Number(s.to_string())
}

fn input(id: Option<&str>, name: &str, password: &str) -> ConnectionInput {
    ConnectionInput {
        id: id.map(|s| s.to_string()),
        name: name.to_string(),
        host: " db.local ".to_string(),
        port: 3306,
        user: " root ".to_string(),
        password: password.to_string(),
        ssl: Some(true),
    }
}

#[test]
fn password_is_stored_as_base64_and_read_back() {
    assert_eq!(encode_password("abc"), "YWJj");
    assert_eq!(encode_password("密码"), "5a+G56CB");
    assert_eq!(decode_password("YWJj"), "abc");
    assert_eq!(decode_password(&encode_password("p@ss wörd")), "p@ss wörd");
    assert_eq!(decode_password("not base64!"), "");
    assert_eq!(decode_password("/w=="), "");
}

#[test]
fn save_then_list_gives_back_the_entered_connection() {
    let (all, saved) = save_connection(Vec::new(), input(Some(" c1 "), " Main ", "secret"));
    assert_eq!(saved.id, "c1");
    assert_eq!(saved.name, " Main ");
    assert_eq!(saved.password, "secret");
    assert_eq!(all.len(), 1);
    assert_eq!(all[0].name, "Main");
    assert_eq!(all[0].host, "db.local");
    assert_eq!(all[0].user, "root");
    assert_eq!(all[0].password_encrypted, "c2VjcmV0");
    let listed = list_connections(all);
    assert_eq!(listed.len(), 1);
    assert_eq!(listed[0].id, "c1");
    assert_eq!(listed[0].name, "Main");
    assert_eq!(listed[0].password, "secret");
    assert_eq!(listed[0].ssl, Some(true));
}

#[test]
fn saving_an_existing_id_replaces_it_in_place() {
    let (all, _) = save_connection_with_id(Vec::new(), input(None, "a", "1"), "x".to_string());
    let (all, _) = save_connection_with_id(all, input(None, "b", "2"), "y".to_string());
    let (all, _) = save_connection_with_id(all, input(None, "c", "3"), "x".to_string());
    assert_eq!(all.len(), 2);
    assert_eq!(all[0].id, "x");
    assert_eq!(all[0].name, "c");
    assert_eq!(all[1].id, "y");
    assert_eq!(decode_password(&all[0].password_encrypted), "3");
}

#[test]
fn saving_without_an_id_generates_one() {
    let (all, saved) = save_connection(Vec::new(), input(Some("   "), "n", "p"));
    assert_eq!(saved.id.len(), 36);
    assert_eq!(saved.id.chars().nth(14), Some('4'));
    assert_eq!(all[0].id, saved.id);
    let (all, other) = save_connection(all, input(None, "m", "q"));
    assert_ne!(other.id, saved.id);
    assert_eq!(all.len(), 2);
}

#[test]
fn delete_removes_every_record_with_the_id() {
    let stored = |id: &str, name: &str| StoredConnection {
        id: id.to_string(),
        name: name.to_string(),
        host: "h".to_string(),
        port: 1,
        user: "u".to_string(),
        password_encrypted: "".to_string(),
        ssl: None,
    };
    let all = vec![stored("a", "1"), stored("b", "2"), stored("a", "3"), stored("c", "4")];
    let (rest, deleted) = delete_connection(all, "a");
    assert!(deleted);
    assert_eq!(rest.iter().map(|c| c.name.as_str()).collect::<Vec<_>>(), vec!["2", "4"]);
    let (again, deleted_again) = delete_connection(rest, "a");
    assert!(!deleted_again);
    assert_eq!(again.len(), 2);
    let saved = to_saved(stored("z", "9"));
    assert_eq!(saved.password, "");
}

#[test]
fn normalize_reports_when_no_table_is_named() {
    let options = ExportOptions {
        database: "demo".to_string(),
        table: Some(" null ".to_string()),
        tables: None,
        table_rules: Some(vec![ExportTableRule { table: "  ".to_string(), mode: ExportMode::Full }]),
        format: ExportFormat::Csv,
        sample_limit: 5,
        file_path: "x.csv".to_string(),
    };
    assert_eq!(normalize_export_table_rules(&options).unwrap_err(), "请选择要导出的表");
    let single = ExportOptions { table: Some(" t1 ".to_string()), ..options };
    let rules = normalize_export_table_rules(&single).unwrap();
    assert_eq!(rules.len(), 1);
    assert_eq!(rules[0].table, "t1");
    assert_eq!(rules[0].mode, ExportMode::Sample);
}

#[test]
fn queries_quote_identifiers_and_clamp_limits() {
    assert_eq!(quote_identifier("we`ird"), "`we``ird`");
    assert_eq!(sanitize_limit(0), 1);
    assert_eq!(sanitize_limit(5000), 1000);
    assert_eq!(sanitize_limit(42), 42);
    assert_eq!(build_select_query("d", "t", Some(7)), "SELECT * FROM `d`.`t` LIMIT 7");
    assert_eq!(sample_data_query("d", "t", 0), "SELECT * FROM `d`.`t` LIMIT 1");
    assert_eq!(sample_data_query("d", "t", 99999), "SELECT * FROM `d`.`t` LIMIT 1000");
}

#[test]
fn sql_values_are_escaped_literals() {
    assert_eq!(format_sql_value(&CellValue::Null), "NULL");
    assert_eq!(format_sql_value(&CellValue::Bool(true)), "1");
    assert_eq!(format_sql_value(&CellValue::Bool(false)), "0");
    assert_eq!(format_sql_value(&number("-2.5")), "-2.5");
    assert_eq!(format_sql_value(&text("it's\\a\r\nb")), "'it\\'s\\\\a\\r\\nb'");
    assert_eq!(format_sql_value(&CellValue::Nested("[\"a'b\\n\"]".to_string())), "'[\"a\\'b\\\\n\"]'");
}

#[test]
fn sql_export_of_a_table_without_rows_or_definition() {
    let mut t = table("empty", ExportMode::Full, Vec::new());
    t.create_sql = "   ".to_string();
    let sql = generate_sql_export("db", &t, "T");
    assert!(sql.ends_with("-- 表结构\n-- 未能获取建表语句\n\n-- 无全量数据"));
}

#[test]
fn multi_table_sql_export_lists_and_counts_the_tables() {
    let tables = vec![
        table("a", ExportMode::Sample, vec![vec![number("1"), CellValue::Null]]),
        table("b", ExportMode::Full, Vec::new()),
    ];
    let sql = generate_multi_sql_export("db", &tables, "T");
    let expected = "-- ============================================\n\
        -- Database: db\n\
        -- Tables: a, b\n\
        -- Table Count: 2\n\
        -- Sample Tables: 1\n\
        -- Full Tables: 1\n\
        -- Export Time: T\n\
        -- Export By: MySQL Sample Export\n\
        -- ============================================\n\
        \n\
        USE `db`;\n\
        \n\
        -- --------------------------------------------\n\
        -- Table: a\n\
        -- Export Mode: sample\n\
        -- --------------------------------------------\n\
        \n\
        -- 表结构\n\
        CREATE TABLE `a` (`id` int);\n\
        \n\
        -- 样例数据 (前 1 条)\n\
        INSERT INTO `a` (`id`, `note`) VALUES (1, NULL);\n\
        \n\
        -- --------------------------------------------\n\
        -- Table: b\n\
        -- Export Mode: full\n\
        -- --------------------------------------------\n\
        \n\
        -- 表结构\n\
        CREATE TABLE `b` (`id` int);\n\
        \n\
        -- 无全量数据";
    assert_eq!(sql, expected);
    let mut written = String::new();
    write_sql_export_content(&mut written, "db", &tables, "T");
    assert_eq!(written, format!("{expected}\n"));
    assert_eq!(count_export_mode(&tables, ExportMode::Sample), 1);
    assert_eq!(count_export_mode(&tables, ExportMode::Full), 1);
}

#[test]
fn csv_fields_are_quoted_only_when_needed() {
    assert_eq!(escape_csv("plain"), "plain");
    assert_eq!(escape_csv("a,b"), "\"a,b\"");
    assert_eq!(escape_csv("say \"hi\""), "\"say \"\"hi\"\"\"");
    assert_eq!(escape_csv("line\nbreak"), "\"line\nbreak\"");
    assert_eq!(escape_csv_value(&CellValue::Null), "NULL");
    assert_eq!(escape_csv_value(&CellValue::Bool(true)), "true");
    assert_eq!(escape_csv_value(&CellValue::Nested("[1,2]".to_string())), "\"[1,2]\"");
}

#[test]
fn csv_export_of_two_tables() {
    let tables = vec![
        table("a", ExportMode::Sample, vec![vec![number("1"), text("x,y")]]),
        table("b", ExportMode::Full, Vec::new()),
    ];
    let csv = generate_multi_csv_export("db", &tables);
    let expected = "Table,db.a\nExport Mode,sample\nRow Count,1\nid,note\n1,\"x,y\"\n\nTable,db.b\nExport Mode,full\nRow Count,0\nid,note\n(无全量数据)";
    assert_eq!(csv, expected);
    assert_eq!(generate_csv_export("db", &tables[1]), "Table,db.b\nExport Mode,full\nRow Count,0\nid,note\n(无全量数据)");
    let mut written = String::new();
    write_csv_export_content(&mut written, "db", &tables);
    assert_eq!(written, format!("{expected}\n"));
}

#[test]
fn markdown_cells_are_kept_on_one_line() {
    assert_eq!(escape_markdown_cell("a|b\r\nc\nd\re"), "a\\|b<br>c<br>d<br>e");
    assert_eq!(escape_markdown_cell("\r\r\n"), "<br><br>");
    assert_eq!(markdown_value(&CellValue::Null), "NULL");
    assert_eq!(markdown_value(&number("3")), "3");
}

#[test]
fn markdown_export_describes_columns_and_rows() {
    let mut t = table("a", ExportMode::Sample, vec![vec![number("1"), text("x|y")]]);
    t.structure = vec![JsonObject {
        entries: vec![
            ("Field".to_string(), text("id")),
            ("Type".to_string(), text("int")),
            ("Null".to_string(), text("NO")),
            ("Key".to_string(), text("")),
            ("Default".to_string(), CellValue::Null),
            ("Extra".to_string(), text("auto_increment")),
        ],
    }];
    let tables = vec![t];
    let mut written = String::new();
    write_markdown_export_content(&mut written, "db", &tables, "T", 10);
    let expected = "# db.a\n\n> 导出时间: T\n> 导出模式: Sample\n\n## 表结构\n\n\
        | 字段 | 类型 | 允许为空 | 键 | 默认值 | 额外 | 注释 |\n\
        |------|------|---------|-----|--------|------|------|\n\
        | id | int | NO | - | NULL | auto_increment | - |\n\n\
        ## 样例数据 (前 1 条)\n\n\
        | id | note |\n\
        | --- | --- |\n\
        | 1 | x\\|y |\n";
    assert_eq!(written, expected);
    let multi = generate_multi_markdown_export("db", &tables, "T", 0);
    assert!(multi.starts_with("# db 多表导出\n\n> 导出时间: T\n> 表数量: 1\n> Sample 表: 1\n> 全量表: 0\n> 样例行数: 1\n\n---\n\n# db.a\n"));
}

#[test]
fn json_export_documents_each_table() {
    let mut t = table("a", ExportMode::Full, vec![vec![number("1")]]);
    t.structure = vec![JsonObject { entries: vec![("Field".to_string(), text("id")), ("Null".to_string(), text("YES"))] }];
    let single = write_json_export_content("db", std::slice::from_ref(&t), "T", 3);
    match single {
        JsonExport::Table(doc) => {
            assert_eq!(doc.table, "a");
            assert_eq!(doc.export_mode, "full");
            assert_eq!(doc.row_count, 1);
            assert_eq!(doc.sample_count, 1);
            assert!(doc.structure[0].nullable);
            assert_eq!(doc.structure[0].field, text("id"));
            assert_eq!(doc.structure[0].comment, CellValue::Null);
            assert_eq!(doc.sample_data[0].entries, vec![("id".to_string(), number("1")), ("note".to_string(), CellValue::Null)]);
        }
        JsonExport::Tables(_) => panic!("one table gives a single-table document"),
    }
    let multi = format_multi_json_export("db", &[t], "T", 0);
    assert_eq!(multi.sample_limit, 1);
    assert_eq!(multi.table_count, 1);
    assert_eq!(multi.full_tables, 1);
    assert_eq!(multi.sample_tables, 0);
}

#[test]
fn export_content_follows_the_format() {
    let tables = vec![table("a", ExportMode::Sample, Vec::new())];
    match write_export_content("db", &tables, ExportFormat::Sql, "D", "S", 10) {
        ExportContent::Text(t) => assert!(t.contains("-- Export Time: S\n")),
        ExportContent::Json(_) => panic!("SQL is text"),
    }
    match write_export_content("db", &tables, ExportFormat::Markdown, "D", "S", 10) {
        ExportContent::Text(t) => assert!(t.contains("> 导出时间: D\n")),
        ExportContent::Json(_) => panic!("Markdown is text"),
    }
    match write_export_content("db", &tables, ExportFormat::Json, "D", "S", 10) {
        ExportContent::Json(JsonExport::Table(doc)) => assert_eq!(doc.export_time, "D"),
        _ => panic!("JSON is a document"),
    }
}

#[test]
fn labels_and_headings() {
    assert_eq!(export_mode_value(ExportMode::Sample), "sample");
    assert_eq!(export_mode_label(ExportMode::Full), "全量");
    assert_eq!(export_data_heading(ExportMode::Sample, 10), "样例数据 (前 10 条)");
    assert_eq!(export_data_heading(ExportMode::Full, 0), "全量数据 (0 条)");
    let mut out = String::new();
    write_text(&mut out, "a");
    write_line(&mut out, "b");
    assert_eq!(out, "ab\n");
}

#[test]
fn sensitive_columns_are_recognised() {
    assert_eq!(sensitive_column_kind("user_pwd"), Some(SensitiveColumnKind::Password));
    assert_eq!(sensitive_column_kind(" Login PASS "), Some(SensitiveColumnKind::Password));
    assert_eq!(sensitive_column_kind("passwd_hash"), Some(SensitiveColumnKind::Password));
    assert_eq!(sensitive_column_kind("口令"), Some(SensitiveColumnKind::Password));
    assert_eq!(sensitive_column_kind("contact_tel"), Some(SensitiveColumnKind::Phone));
    assert_eq!(sensitive_column_kind("Tele-Phone"), Some(SensitiveColumnKind::Phone));
    assert_eq!(sensitive_column_kind("联系方式"), Some(SensitiveColumnKind::Phone));
    assert_eq!(sensitive_column_kind("hotel"), None);
    assert_eq!(sensitive_column_kind("passenger"), None);
    assert_eq!(sensitive_column_kind("id"), None);
    assert!(has_ascii_token("a-tel_b", &["tel"]));
    assert!(!has_ascii_token("a-tel_b", &["a_tel"]));
    assert!(has_ascii_token("x cell", &["tel", "cell"]));
}

#[test]
fn phone_masking_edges() {
    assert_eq!(mask_phone_text("no digits"), "****");
    assert_eq!(mask_phone_text("1234"), "****");
    assert_eq!(mask_phone_text("1234567"), "12***67");
    assert_eq!(mask_phone_text("12345678901"), "123****8901");
    assert_eq!(mask_phone_value(CellValue::Null), CellValue::Null);
    assert_eq!(mask_phone_value(text("")), text(""));
    assert_eq!(mask_phone_value(number("13800001111")), text("138****1111"));
    assert_eq!(mask_password_value(text("")), text(""));
    assert_eq!(mask_password_value(CellValue::Bool(false)), text("******"));
    assert_eq!(mask_password_value(CellValue::Null), CellValue::Null);
}

#[test]
fn database_values_become_cells() {
    assert_eq!(value_to_json(&SqlValue::Int(-42)), number("-42"));
    assert_eq!(value_to_json(&SqlValue::Int(i64::MIN)), number("-9223372036854775808"));
    assert_eq!(value_to_json(&SqlValue::UInt(7)), number("7"));
    assert_eq!(value_to_json(&SqlValue::Real(None)), CellValue::Null);
    assert_eq!(value_to_json(&SqlValue::Real(Some("1.5".to_string()))), number("1.5"));
    assert_eq!(value_to_json(&SqlValue::Date(2024, 1, 5, 0, 0, 0, 0)), text("2024-01-05"));
    assert_eq!(value_to_json(&SqlValue::Date(2024, 1, 5, 7, 8, 9, 0)), text("2024-01-05 07:08:09"));
    assert_eq!(value_to_json(&SqlValue::Date(24, 1, 5, 7, 8, 9, 12)), text("0024-01-05 07:08:09.000012"));
    assert_eq!(value_to_json(&SqlValue::Time(true, 1, 2, 3, 4, 0)), text("-26:03:04"));
    assert_eq!(value_to_json(&SqlValue::Time(false, 0, 5, 0, 0, 500)), text("05:00:00.000500"));
    assert_eq!(value_to_json(&SqlValue::Bytes(vec![104, 105])), text("hi"));
    assert_eq!(value_to_json(&SqlValue::Bytes(vec![0xff, 0x01])), text("0xff01"));
    assert_eq!(value_to_plain_string(&SqlValue::Null), "");
    assert_eq!(value_to_plain_string(&SqlValue::UInt(3)), "3");
    assert_eq!(bytes_to_string(&[0xc3, 0x28]), "0xc328");
    assert_eq!(to_hex(&[0, 15, 16, 255]), "000f10ff");
}

fn row(columns: &[&str], values: Vec<Option<SqlValue>>) -> SqlRow {
    SqlRow { columns: columns.iter().map(|c| c.to_string()).collect(), values }
}

#[test]
fn catalogue_rows_are_read() {
    let rows = vec![
        row(&["Database"], vec![Some(SqlValue::Bytes(b"shop".to_vec()))]),
        row(&["Database"], vec![Some(SqlValue::Bytes(b"mysql".to_vec()))]),
        row(&["Database"], vec![None]),
        row(&["Database"], vec![Some(SqlValue::Bytes(b"sys".to_vec()))]),
        row(&["Database"], vec![Some(SqlValue::Bytes(b"crm".to_vec()))]),
    ];
    assert_eq!(databases_from_rows(&rows), vec!["shop".to_string(), "crm".to_string()]);

    let view = row(
        &["name", "type", "rows"],
        vec![Some(SqlValue::Bytes(b"v1".to_vec())), Some(SqlValue::Bytes(b"VIEW".to_vec())), Some(SqlValue::Null)],
    );
    let info = table_info(&view);
    assert_eq!(info.name, "v1");
    assert_eq!(info.object_type, "VIEW");
    assert_eq!(info.rows, 0);
    let base = row(
        &["name", "type", "rows"],
        vec![Some(SqlValue::Bytes(b"t".to_vec())), Some(SqlValue::Bytes(b"BASE TABLE".to_vec())), Some(SqlValue::UInt(12))],
    );
    let info = table_info(&base);
    assert_eq!(info.object_type, "TABLE");
    assert_eq!(info.rows, 12);

    let created = vec![row(
        &["View", "Create View"],
        vec![Some(SqlValue::Bytes(b"v1".to_vec())), Some(SqlValue::Bytes(b"CREATE VIEW v1".to_vec()))],
    )];
    assert_eq!(create_table_sql_from_rows(&created), "CREATE VIEW v1");
    assert_eq!(create_table_sql_from_rows(&Vec::new()), "");

    let structure = structure_from_rows(&vec![row(&["Field", "Field"], vec![Some(SqlValue::Int(1)), Some(SqlValue::Int(2))])]);
    assert_eq!(object_get_string(&structure[0], "Field"), "2");

    let data = query_table_data(&vec![
        row(&["a", "b"], vec![Some(SqlValue::Int(1)), None]),
        row(&["a", "b"], vec![Some(SqlValue::Int(2))]),
    ]);
    assert_eq!(data.columns, vec!["a".to_string(), "b".to_string()]);
    assert_eq!(data.rows, vec![vec![number("1"), CellValue::Null], vec![number("2"), CellValue::Null]]);
    let empty = query_table_data(&Vec::new());
    assert!(empty.columns.is_empty() && empty.rows.is_empty());
}

#[test]
fn objects_give_text_and_numbers() {
    let object = row_to_object(&row(
        &["n", "s", "neg", "f", "b"],
        vec![
            Some(SqlValue::UInt(5)),
            Some(SqlValue::Bytes(b"+17".to_vec())),
            Some(SqlValue::Int(-3)),
            Some(SqlValue::Real(Some("2.5".to_string()))),
            Some(SqlValue::Null),
        ],
    ));
    assert_eq!(object_get_u64(&object, "n"), 5);
    assert_eq!(object_get_u64(&object, "s"), 17);
    assert_eq!(object_get_u64(&object, "neg"), 0);
    assert_eq!(object_get_u64(&object, "f"), 0);
    assert_eq!(object_get_u64(&object, "missing"), 0);
    assert_eq!(object_get_string_opt(&object, "b"), None);
    assert_eq!(object_get_string_opt(&object, "f"), Some("2.5".to_string()));
    assert_eq!(parse_u64("18446744073709551615"), Some(u64::MAX));
    assert_eq!(parse_u64("18446744073709551616"), None);
    assert_eq!(parse_u64("+"), None);
    assert_eq!(parse_u64("-1"), None);
    assert_eq!(parse_u64(""), None);
}

#[test]
fn connection_settings_are_trimmed() {
    let options = connection_options(ConnectionConfig {
        host: "  db  ".to_string(),
        port: 3307,
        user: "\troot\n".to_string(),
        password: " pw ".to_string(),
        ssl: None,
    });
    assert_eq!(options.host, "db");
    assert_eq!(options.user, "root");
    assert_eq!(options.password, " pw ");
    assert_eq!(options.port, 3307);
    assert!(!options.use_ssl);
    assert_eq!(trim_str("\u{3000}x\u{a0}"), "x");
}

#[test]
fn export_times_are_formatted() {
    assert_eq!(format_rfc3339_export_time(1_000_000_000_000_000_000), "2001-09-09T01:46:40Z");
    assert_eq!(format_rfc3339_export_time(1_500_000_000), "1970-01-01T00:00:01.5Z");
    assert_eq!(format_sql_export_time(0), Some("1970-01-01 08:00:00".to_string()));
    assert_eq!(format_sql_export_time(i128::MAX), None);
    assert_eq!(format_rfc3339_export_time(i128::MAX), "1970-01-01T00:00:00Z");
    assert_eq!(format_sql_time_fields(-5, 1, 2, 3, 4, 5), "-005-01-02 03:04:05");
    assert_eq!(format_sql_time_fields(12345, 12, 31, 23, 59, 59), "12345-12-31 23:59:59");
}

#[test]
fn table_writers_end_every_line() {
    let t = table("a", ExportMode::Sample, vec![vec![number("1"), text("n")]]);
    let mut sql = String::new();
    sample_export::export::sql::write_sql_table_export(&mut sql, &t, true);
    assert!(sql.starts_with("-- --------------------------------------------\n-- Table: a\n"));
    assert!(sql.ends_with("INSERT INTO `a` (`id`, `note`) VALUES (1, 'n');\n"));
    let mut csv = String::new();
    sample_export::export::csv::write_csv_table_export(&mut csv, "db", &t);
    assert_eq!(csv, "Table,db.a\nExport Mode,sample\nRow Count,1\nid,note\n1,n\n");
    let mut md = String::new();
    sample_export::export::markdown::write_markdown_table_export(&mut md, &t);
    assert!(md.starts_with("## 表结构\n\n"));
    assert!(md.ends_with("| 1 | n |\n"));
}

#[test]
fn catalogue_queries_quote_their_names() {
    assert_eq!(full_columns_query("shop", "order`s"), "SHOW FULL COLUMNS FROM `shop`.`order``s`");
    assert_eq!(create_table_query("shop", "users"), "SHOW CREATE TABLE `shop`.`users`");
}

#[test]
fn column_kinds_from_the_lowered_and_compact_names() {
    assert_eq!(column_kind_of_forms("user_pwd", "userpwd"), Some(SensitiveColumnKind::Password));
    assert_eq!(column_kind_of_forms("pass", "pass"), Some(SensitiveColumnKind::Password));
    assert_eq!(column_kind_of_forms("登录密码", "登录密码"), Some(SensitiveColumnKind::Password));
    assert_eq!(column_kind_of_forms("mobile_no", "mobileno"), Some(SensitiveColumnKind::Phone));
    assert_eq!(column_kind_of_forms("home tel", "hometel"), Some(SensitiveColumnKind::Phone));
    assert_eq!(column_kind_of_forms("hotel", "hotel"), None);
    assert_eq!(column_kind_of_forms("passport", "passport"), None);
}

#[test]
fn sql_export_time_is_shown_at_utc_plus_8() {
    assert_eq!(SQL_EXPORT_OFFSET_HOURS, 8);
    assert_eq!(format_sql_export_time(0), Some("1970-01-01 08:00:00".to_string()));
    assert_eq!(format_sql_export_time(-1), Some("1970-01-01 07:59:59".to_string()));
    assert_eq!(format_sql_export_time(i128::MAX), None);
}
