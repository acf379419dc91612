use profile_graph::analysis::{
    filter_analysis_results_into_errors_and_warning, insert_or_push_into_map, extend_combine_map,
    AnalysisMap, AnalysisMessageDetails, ConfigDetails, ErrType, ErrWan, FILE_KEY,
};
use profile_graph::collision::{populate_key_set, KeySet};
use profile_graph::json::Json;
use profile_graph::parse::parse_json;
use profile_graph::profiles::{
    ConfigNameAndPath, FilamentJsonSchema, PrinterVariantJsonSchema, ProcessJsonSchema,
    VendorJsonSchema,
};
use profile_graph::validate::{
    analyse_installed_filament_config, analyse_installed_printer_config,
    analyse_installed_process_config, analyse_vendor_config, check_collision_in_config_file,
    check_if_configs_exist, str_to_bool,
};

fn details() -> ConfigDetails {
    ConfigDetails::new(
        "Vendor".to_string(),
        "/tmp/Vendor.json".to_string(),
        None,
        "system".to_string(),
        "vendor".to_string(),
    )
}

fn entry(name: &str, sub_path: &str) -> ConfigNameAndPath {
    ConfigNameAndPath { name: name.to_string(), sub_path: sub_path.to_string() }
}

fn messages_of<'a>(
    map: &'a AnalysisMap<AnalysisMessageDetails>,
    key: &str,
) -> &'a Vec<AnalysisMessageDetails> {
    &map.entries.iter().find(|(k, _)| k == key).unwrap().1
}

#[test]
fn str_to_bool_reads_the_lenient_vocabulary() {
    assert_eq!(str_to_bool("true"), Some(true));
    assert_eq!(str_to_bool("TRUE"), Some(true));
    assert_eq!(str_to_bool("1"), Some(true));
    assert_eq!(str_to_bool("Yes"), Some(true));
    assert_eq!(str_to_bool("false"), Some(false));
    assert_eq!(str_to_bool("0"), Some(false));
    assert_eq!(str_to_bool("NO"), Some(false));
    assert_eq!(str_to_bool("maybe"), None);
    assert_eq!(str_to_bool(""), None);
}

#[test]
fn missing_reference_yields_one_error_under_the_list_key() {
    let list = Some(vec![entry("Printer A", "machine/Printer A.json")]);
    let existence = vec![Ok(false)];
    let map = check_if_configs_exist(
        &list,
        "/data/Vendor",
        &existence,
        &details(),
        "machine_list".to_string(),
    );
    assert_eq!(map.entries.len(), 1);
    let msgs = messages_of(&map, "machine_list");
    assert_eq!(msgs.len(), 1);
    assert!(matches!(msgs[0].message.severity, ErrType::Error));
    assert_eq!(
        msgs[0].message.text,
        "Config 'Printer A' does not exist at '/data/Vendor/machine/Printer A.json'"
    );
}

#[test]
fn io_failure_during_the_check_becomes_an_error_finding() {
    let list = Some(vec![entry("P", "machine/P.json")]);
    let existence = vec![Err("permission denied".to_string())];
    let map = check_if_configs_exist(
        &list,
        "/data/Vendor",
        &existence,
        &details(),
        "machine_list".to_string(),
    );
    let msgs = messages_of(&map, "machine_list");
    assert_eq!(msgs.len(), 1);
    assert!(matches!(msgs[0].message.severity, ErrType::Error));
    assert_eq!(msgs[0].message.text, "permission denied");
}

#[test]
fn absent_list_yields_one_warning_under_the_sentinel_key() {
    let map = check_if_configs_exist(
        &None,
        "/data/Vendor",
        &Vec::new(),
        &details(),
        "filament_list".to_string(),
    );
    assert_eq!(map.entries.len(), 1);
    let msgs = messages_of(&map, FILE_KEY);
    assert_eq!(msgs.len(), 1);
    assert!(matches!(msgs[0].message.severity, ErrType::Warning));
    assert_eq!(msgs[0].message.text, "Config does not contain the key 'filament_list'");
}

#[test]
fn existing_references_yield_no_findings() {
    let list = Some(vec![entry("A", "machine/A.json"), entry("B", "machine/B.json")]);
    let existence = vec![Ok(true), Ok(true)];
    let map = check_if_configs_exist(
        &list,
        "/data/Vendor",
        &existence,
        &details(),
        "machine_list".to_string(),
    );
    assert_eq!(map.entries.len(), 0);
}

fn vendor_doc(version: Option<&str>) -> VendorJsonSchema {
    let text = match version {
        Some(v) => format!(
            "{{\"name\": \"Vendor\", \"version\": \"{v}\", \"machine_list\": [{{\"name\": \"P\", \"sub_path\": \"machine/P.json\"}}]}}"
        ),
        None => "{\"name\": \"Vendor\", \"machine_list\": [{\"name\": \"P\", \"sub_path\": \"machine/P.json\"}]}".to_string(),
    };
    let doc = parse_json(&text).unwrap();
    VendorJsonSchema::from_json(&doc).unwrap()
}

#[test]
fn vendor_analysis_reports_missing_version_and_partitions_findings() {
    let vendor = vendor_doc(None);
    let (errors, warnings) = analyse_vendor_config(
        &vendor,
        &Vec::new(),
        &vec![Ok(true)],
        &Vec::new(),
        &Vec::new(),
        "/data/Vendor.json".to_string(),
        "system".to_string(),
        "Vendor".to_string(),
    );
    let version_msgs = messages_of(&errors, "version");
    assert_eq!(version_msgs.len(), 1);
    assert_eq!(version_msgs[0].message.text, "Config must contain the key 'config'");
    // the three absent lists each leave a warning under the sentinel key
    let sentinel = messages_of(&warnings, FILE_KEY);
    assert_eq!(sentinel.len(), 3);
    assert!(errors.entries.iter().all(|(k, _)| k != FILE_KEY));
}

#[test]
fn vendor_analysis_with_version_and_broken_reference() {
    let vendor = vendor_doc(Some("1.0.0"));
    let (errors, _warnings) = analyse_vendor_config(
        &vendor,
        &Vec::new(),
        &vec![Ok(false)],
        &Vec::new(),
        &Vec::new(),
        "/data/Vendor.json".to_string(),
        "system".to_string(),
        "Vendor".to_string(),
    );
    assert!(errors.entries.iter().all(|(k, _)| k != "version"));
    let msgs = messages_of(&errors, "machine_list");
    assert_eq!(msgs.len(), 1);
    assert_eq!(
        msgs[0].message.text,
        "Config 'P' does not exist at '/data/Vendor/machine/P.json'"
    );
}

fn filament_from(text: &str) -> FilamentJsonSchema {
    FilamentJsonSchema::from_json(&parse_json(text).unwrap()).unwrap()
}

#[test]
fn instantiated_filament_with_bad_setting_id_yields_pattern_error() {
    let config = filament_from(
        "{\"name\": \"F\", \"instantiation\": \"true\", \"setting_id\": \"ABC\", \"filament_id\": \"GFL01\"}",
    );
    let (errors, warnings) = analyse_installed_filament_config(
        &config,
        "/p/F.json".to_string(),
        "system".to_string(),
        "F".to_string(),
        "Vendor".to_string(),
    );
    let msgs = messages_of(&errors, "setting_id");
    assert_eq!(msgs.len(), 1);
    assert_eq!(msgs[0].message.text, "The key setting_id, does not meet the set pattern: ^GFS");
    assert!(matches!(msgs[0].message.severity, ErrType::Error));
    assert_eq!(warnings.entries.len(), 0);
}

#[test]
fn absent_filament_id_yields_sentinel_error_whatever_the_instantiation() {
    for inst in ["\"false\"", "\"true\"", "null"] {
        let config = filament_from(&format!(
            "{{\"name\": \"F\", \"instantiation\": {inst}, \"setting_id\": \"GFS01\"}}"
        ));
        let (errors, _) = analyse_installed_filament_config(
            &config,
            "/p/F.json".to_string(),
            "system".to_string(),
            "F".to_string(),
            "Vendor".to_string(),
        );
        let msgs = messages_of(&errors, FILE_KEY);
        assert_eq!(msgs.len(), 1);
        assert_eq!(
            msgs[0].message.text,
            "The key filament_id, does not exist in the config. This can cause issues"
        );
    }
}

#[test]
fn non_string_identifier_value_yields_pattern_error() {
    let config = filament_from(
        "{\"name\": \"F\", \"instantiation\": \"true\", \"setting_id\": 7, \"filament_id\": [\"GFL01\"]}",
    );
    let (errors, warnings) = analyse_installed_filament_config(
        &config,
        "/p/F.json".to_string(),
        "system".to_string(),
        "F".to_string(),
        "Vendor".to_string(),
    );
    let setting = messages_of(&errors, "setting_id");
    assert_eq!(setting.len(), 1);
    assert_eq!(setting[0].message.text, "The key setting_id, does not meet the set pattern: ^GFS");
    let filament = messages_of(&errors, "filament_id");
    assert_eq!(filament.len(), 1);
    assert_eq!(
        filament[0].message.text,
        "The key filament_id, does not meet the set pattern: ^GF"
    );
    assert_eq!(warnings.entries.len(), 0);
}

#[test]
fn conforming_filament_yields_no_findings() {
    let config = filament_from(
        "{\"name\": \"F\", \"instantiation\": \"true\", \"setting_id\": \"GFS01\", \"filament_id\": \"GFL01\"}",
    );
    let (errors, warnings) = analyse_installed_filament_config(
        &config,
        "/p/F.json".to_string(),
        "system".to_string(),
        "F".to_string(),
        "Vendor".to_string(),
    );
    assert_eq!(errors.entries.len(), 0);
    assert_eq!(warnings.entries.len(), 0);
}

#[test]
fn uninstantiated_filament_skips_the_setting_id_check() {
    let config = filament_from(
        "{\"name\": \"F\", \"setting_id\": \"ABC\", \"filament_id\": \"GFL01\"}",
    );
    let (errors, _) = analyse_installed_filament_config(
        &config,
        "/p/F.json".to_string(),
        "system".to_string(),
        "F".to_string(),
        "Vendor".to_string(),
    );
    assert_eq!(errors.entries.len(), 0);
}

#[test]
fn instantiated_printer_needs_the_machine_prefix() {
    let doc = parse_json(
        "{\"name\": \"P\", \"instantiation\": \"yes\", \"setting_id\": \"GFS9\"}",
    ).unwrap();
    let config = PrinterVariantJsonSchema::from_json(&doc).unwrap();
    let (errors, _) = analyse_installed_printer_config(
        &config,
        "/p/P.json".to_string(),
        "system".to_string(),
        "P".to_string(),
        "Vendor".to_string(),
    );
    let msgs = messages_of(&errors, "setting_id");
    assert_eq!(msgs[0].message.text, "The key setting_id, does not meet the set pattern: ^GM");
}

#[test]
fn instantiated_process_needs_the_process_prefix() {
    let doc = parse_json(
        "{\"name\": \"S\", \"instantiation\": \"1\", \"setting_id\": \"GP01\"}",
    ).unwrap();
    let config = ProcessJsonSchema::from_json(&doc).unwrap();
    let (errors, warnings) = analyse_installed_process_config(
        &config,
        "/p/S.json".to_string(),
        "system".to_string(),
        "S".to_string(),
        "Vendor".to_string(),
    );
    assert_eq!(errors.entries.len(), 0);
    assert_eq!(warnings.entries.len(), 0);
}

fn collision_state(values: &[&str]) -> KeySet {
    let mut state = KeySet::new();
    populate_key_set(values.iter().map(|s| s.to_string()).collect(), &mut state);
    state
}

fn run_collision(doc_text: &str, key: &str, state: &KeySet) -> (
    AnalysisMap<AnalysisMessageDetails>,
    AnalysisMap<AnalysisMessageDetails>,
) {
    let doc = parse_json(doc_text).unwrap();
    check_collision_in_config_file(
        &doc,
        key.to_string(),
        state,
        "/p/F.json".to_string(),
        "system".to_string(),
        "F".to_string(),
        Some("Vendor".to_string()),
        "filament".to_string(),
    )
}

#[test]
fn collision_with_known_identifier_yields_one_warning() {
    let state = collision_state(&["GFL01"]);
    let (errors, warnings) = run_collision(
        "{\"filament_id\": \"GFL01\"}",
        "filament_id",
        &state,
    );
    assert_eq!(errors.entries.len(), 0);
    let msgs = messages_of(&warnings, "filament_id");
    assert_eq!(msgs.len(), 1);
    assert_eq!(
        msgs[0].message.text,
        "Collision detected for key 'filament_id' with value 'GFL01'"
    );
    assert!(matches!(msgs[0].message.severity, ErrType::Warning));
}

#[test]
fn unknown_identifier_yields_no_messages() {
    let state = collision_state(&["GFL01"]);
    let (errors, warnings) = run_collision(
        "{\"filament_id\": \"GFL02\"}",
        "filament_id",
        &state,
    );
    assert_eq!(errors.entries.len(), 0);
    assert_eq!(warnings.entries.len(), 0);
}

#[test]
fn absent_key_yields_one_warning() {
    let state = collision_state(&["GFL01"]);
    let (errors, warnings) = run_collision("{\"name\": \"F\"}", "filament_id", &state);
    assert_eq!(errors.entries.len(), 0);
    let msgs = messages_of(&warnings, "filament_id");
    assert_eq!(msgs.len(), 1);
    assert_eq!(msgs[0].message.text, "Key does not exist in the config 'filament_id'");
}

fn msg(text: &str, severity: ErrType) -> AnalysisMessageDetails {
    AnalysisMessageDetails {
        config_details: details(),
        message: ErrWan { text: text.to_string(), severity },
    }
}

#[test]
fn insert_or_push_groups_values_under_their_key() {
    let mut map: AnalysisMap<AnalysisMessageDetails> = AnalysisMap::new();
    insert_or_push_into_map(&mut map, "a".to_string(), msg("one", ErrType::Error));
    insert_or_push_into_map(&mut map, "b".to_string(), msg("two", ErrType::Warning));
    insert_or_push_into_map(&mut map, "a".to_string(), msg("three", ErrType::Critical));
    assert_eq!(map.entries.len(), 2);
    let a = messages_of(&map, "a");
    assert_eq!(a.len(), 2);
    assert_eq!(a[0].message.text, "one");
    assert_eq!(a[1].message.text, "three");
}

#[test]
fn extend_combine_appends_and_adds_entries() {
    let mut left: AnalysisMap<AnalysisMessageDetails> = AnalysisMap::new();
    insert_or_push_into_map(&mut left, "a".to_string(), msg("l1", ErrType::Error));
    let mut right: AnalysisMap<AnalysisMessageDetails> = AnalysisMap::new();
    insert_or_push_into_map(&mut right, "a".to_string(), msg("r1", ErrType::Error));
    insert_or_push_into_map(&mut right, "b".to_string(), msg("r2", ErrType::Warning));
    extend_combine_map(&mut left, right);
    assert_eq!(left.entries.len(), 2);
    let a = messages_of(&left, "a");
    assert_eq!(a.len(), 2);
    assert_eq!(a[0].message.text, "l1");
    assert_eq!(a[1].message.text, "r1");
    assert_eq!(messages_of(&left, "b").len(), 1);
}

#[test]
fn filter_partitions_by_severity_and_drops_empty_keys() {
    let mut map: AnalysisMap<AnalysisMessageDetails> = AnalysisMap::new();
    insert_or_push_into_map(&mut map, "a".to_string(), msg("e", ErrType::Error));
    insert_or_push_into_map(&mut map, "a".to_string(), msg("w", ErrType::Warning));
    insert_or_push_into_map(&mut map, "b".to_string(), msg("c", ErrType::Critical));
    insert_or_push_into_map(&mut map, "c".to_string(), msg("w2", ErrType::Warning));
    let (errors, warnings) = filter_analysis_results_into_errors_and_warning(map);
    assert_eq!(errors.entries.len(), 2);
    assert_eq!(messages_of(&errors, "a").len(), 1);
    assert_eq!(messages_of(&errors, "a")[0].message.text, "e");
    assert_eq!(messages_of(&errors, "b")[0].message.text, "c");
    assert_eq!(warnings.entries.len(), 2);
    assert_eq!(messages_of(&warnings, "a")[0].message.text, "w");
    assert_eq!(messages_of(&warnings, "c")[0].message.text, "w2");
}
