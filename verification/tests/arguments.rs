use s2_cli::admin::{
    basin_update_mask, stream_times, stream_update_mask, RETENTION_POLICY_PATH,
    STORAGE_CLASS_PATH,
};
use s2_cli::stdio::{
    parse_records_input_source, parse_records_output_source, RecordsIn, RecordsOut,
};

#[test]
fn dash_and_empty_name_the_standard_input() {
    assert_eq!(parse_records_input_source("-"), RecordsIn::Stdin);
    assert_eq!(parse_records_input_source(""), RecordsIn::Stdin);
}

#[test]
fn anything_else_names_an_input_file() {
    assert_eq!(
        parse_records_input_source("records.txt"),
        RecordsIn::File("records.txt".to_string())
    );
    assert_eq!(parse_records_input_source("--"), RecordsIn::File("--".to_string()));
    assert_eq!(parse_records_input_source("-a"), RecordsIn::File("-a".to_string()));
    assert_eq!(parse_records_input_source(" "), RecordsIn::File(" ".to_string()));
    assert_eq!(parse_records_input_source("é"), RecordsIn::File("é".to_string()));
}

#[test]
fn dash_and_empty_name_the_standard_output() {
    assert_eq!(parse_records_output_source("-"), RecordsOut::Stdout);
    assert_eq!(parse_records_output_source(""), RecordsOut::Stdout);
    assert_eq!(
        parse_records_output_source("/tmp/out"),
        RecordsOut::File("/tmp/out".to_string())
    );
}

#[test]
fn update_mask_names_only_what_was_given() {
    assert_eq!(stream_update_mask(false, false), Vec::<String>::new());
    assert_eq!(stream_update_mask(true, false), vec!["storage_class".to_string()]);
    assert_eq!(stream_update_mask(false, true), vec!["retention_policy".to_string()]);
    assert_eq!(
        stream_update_mask(true, true),
        vec!["storage_class".to_string(), "retention_policy".to_string()]
    );
    assert_eq!(
        basin_update_mask(true, true),
        vec![STORAGE_CLASS_PATH.to_string(), RETENTION_POLICY_PATH.to_string()]
    );
    assert_eq!(basin_update_mask(false, true), vec![RETENTION_POLICY_PATH.to_string()]);
}

#[test]
fn stream_times_are_rfc3339_in_utc() {
    let (created, deleted) = stream_times(0, None);
    assert_eq!(created, "1970-01-01T00:00:00Z");
    assert_eq!(deleted, "");
    let (created, deleted) = stream_times(1_518_568_087, Some(1_700_000_000));
    assert_eq!(created, "2018-02-14T00:28:07Z");
    assert_eq!(deleted, "2023-11-14T22:13:20Z");
    let (latest, _) = stream_times(u32::MAX, None);
    assert_eq!(latest, "2106-02-07T06:28:15Z");
}
