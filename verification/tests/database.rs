use sample_export::export::json::format_json_table_export;
use sample_export::export::markdown::generate_markdown_export;
use sample_export::export::sql::generate_sql_export;
use sample_export::masking::{mask_phone_text, mask_sensitive_sample_data};
use sample_export::query::build_export_data_query;
use sample_export::rules::{normalize_export_table_rules, ExportOptions, ExportTableRule, NormalizedExportTableRule};
use sample_export::timefmt::format_sql_export_time;
use sample_export::types::{ExportFormat, ExportMode, ExportTableData, SampleData};
use sample_export::value::CellValue;

fn table_data() -> ExportTableData {
    table_data_with_mode(ExportMode::Sample)
}

fn table_data_with_mode(export_mode: ExportMode) -> ExportTableData {
    ExportTableData {
        name: "disaster_info".to_string(),
        export_mode,
        create_sql: "CREATE TABLE `disaster_info` (`id` int)".to_string(),
        structure: Vec::new(),
        sample: SampleData {
            columns: vec!["id".to_string()],
            rows: vec![vec![CellValue::Number("1".to_string())]],
        },
    }
}

#[test]
fn format_sql_export_time_uses_utc_plus_8_timestamp() {
    let export_time = time::Date::from_calendar_date(2026, time::Month::July, 2)
        .unwrap()
        .with_hms(8, 5, 2)
        .unwrap()
        .assume_utc();

    assert_eq!(
        format_sql_export_time(export_time.unix_timestamp_nanos()).unwrap(),
        "2026-07-02 16:05:02"
    );
}

#[test]
fn generate_sql_export_uses_simplified_header() {
    let sql = generate_sql_export("tem_platform", &table_data(), "2026-07-02 08:05:02");
    let expected_header = "-- ============================================\n\
        -- Database: tem_platform\n\
        -- Table: disaster_info\n\
        -- Export Mode: sample\n\
        -- Export Time: 2026-07-02 08:05:02\n\
        -- Export By: MySQL Sample Export\n\
        -- ============================================\n";

    assert!(sql.starts_with(expected_header));
    assert!(!sql.contains("USE `tem_platform`;"));
    assert!(!sql.contains("-- --------------------------------------------"));
    assert!(sql.contains("INSERT INTO `disaster_info` (`id`) VALUES (1);"));
}

#[test]
fn normalize_export_table_rules_prefers_table_rules() {
    let options = ExportOptions {
        database: "demo".to_string(),
        table: Some("legacy".to_string()),
        tables: Some(vec!["legacy_a".to_string(), "legacy_b".to_string()]),
        table_rules: Some(vec![
            ExportTableRule {
                table: " orders ".to_string(),
                mode: ExportMode::Full,
            },
            ExportTableRule {
                table: "users".to_string(),
                mode: ExportMode::Sample,
            },
            ExportTableRule {
                table: "orders".to_string(),
                mode: ExportMode::Sample,
            },
        ]),
        format: ExportFormat::Sql,
        sample_limit: 10,
        file_path: "out.sql".to_string(),
    };

    let rules = normalize_export_table_rules(&options).unwrap();

    assert_eq!(
        rules,
        vec![
            NormalizedExportTableRule {
                table: "orders".to_string(),
                mode: ExportMode::Full,
            },
            NormalizedExportTableRule {
                table: "users".to_string(),
                mode: ExportMode::Sample,
            },
        ]
    );
}

#[test]
fn normalize_export_table_rules_keeps_legacy_tables_as_sample() {
    let options = ExportOptions {
        database: "demo".to_string(),
        table: None,
        tables: Some(vec![
            "users".to_string(),
            " users ".to_string(),
            "undefined".to_string(),
            "orders".to_string(),
        ]),
        table_rules: None,
        format: ExportFormat::Json,
        sample_limit: 10,
        file_path: "out.json".to_string(),
    };

    let rules = normalize_export_table_rules(&options).unwrap();

    assert_eq!(
        rules,
        vec![
            NormalizedExportTableRule {
                table: "users".to_string(),
                mode: ExportMode::Sample,
            },
            NormalizedExportTableRule {
                table: "orders".to_string(),
                mode: ExportMode::Sample,
            },
        ]
    );
}

#[test]
fn build_export_data_query_uses_limit_only_for_sample() {
    assert_eq!(
        build_export_data_query("demo", "users", ExportMode::Sample, 10),
        "SELECT * FROM `demo`.`users` LIMIT 10"
    );
    assert_eq!(
        build_export_data_query("demo", "users", ExportMode::Full, 10),
        "SELECT * FROM `demo`.`users`"
    );
}

#[test]
fn export_outputs_include_full_mode_metadata() {
    let table_data = table_data_with_mode(ExportMode::Full);
    let sql = generate_sql_export("tem_platform", &table_data, "2026-07-02 08:05:02");
    let json = format_json_table_export("tem_platform", &table_data, "2026-07-02T00:05:02Z");
    let markdown = generate_markdown_export("tem_platform", &table_data, "2026-07-02T00:05:02Z");

    assert!(sql.contains("-- Export Mode: full"));
    assert!(sql.contains("-- 全量数据 (1 条)"));
    assert_eq!(json.export_mode, "full");
    assert_eq!(json.row_count, 1);
    assert!(markdown.contains("> 导出模式: 全量"));
    assert!(markdown.contains("## 全量数据 (1 条)"));
}

#[test]
fn mask_sensitive_sample_data_masks_phone_and_password_columns() {
    let sample = SampleData {
        columns: vec![
            "id".to_string(),
            "mobile_phone".to_string(),
            "password".to_string(),
            "\u{624b}\u{673a}\u{53f7}".to_string(),
            "\u{5bc6}\u{7801}".to_string(),
        ],
        rows: vec![vec![
            CellValue::Number("1".to_string()),
            CellValue::String("13812345678".to_string()),
            CellValue::String("secret".to_string()),
            CellValue::String("13900001111".to_string()),
            CellValue::String("hash".to_string()),
        ]],
    };

    let masked = mask_sensitive_sample_data(sample);

    assert_eq!(masked.rows[0][0], CellValue::Number("1".to_string()));
    assert_eq!(masked.rows[0][1], CellValue::String("138****5678".to_string()));
    assert_eq!(masked.rows[0][2], CellValue::String("******".to_string()));
    assert_eq!(masked.rows[0][3], CellValue::String("139****1111".to_string()));
    assert_eq!(masked.rows[0][4], CellValue::String("******".to_string()));
}

#[test]
fn mask_phone_text_keeps_country_code_and_local_edges() {
    assert_eq!(mask_phone_text("+86 138-1234-5678"), "+86 138-****-5678");
}
