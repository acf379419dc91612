use profile_graph::collision::KeySet;
use profile_graph::duplicate::{
    duplicate_vendor, rewrite_filament, rewrite_list_entries, rewrite_printer_model,
    rewrite_printer_variant, rewrite_process,
};
use profile_graph::json::{strip_json, Json, json_get};
use profile_graph::parse::parse_json;
use profile_graph::profiles::{
    FilamentJsonSchema, PrinterModelJsonSchema, PrinterVariantJsonSchema, ProcessJsonSchema,
    VendorJsonSchema,
};
use profile_graph::ser::json_to_pretty_string;

fn no_exempt() -> KeySet {
    KeySet::new()
}

fn exempt(values: &[&str]) -> KeySet {
    KeySet { values: values.iter().map(|s| s.to_string()).collect() }
}

fn vendor() -> VendorJsonSchema {
    let text = "{\
        \"name\": \"Generic\",\
        \"version\": \"1.0.0\",\
        \"machine_model_list\": [{\"name\": \"Generic Model\", \"sub_path\": \"machine/Generic Model.json\"}],\
        \"machine_list\": [{\"name\": \"Generic 0.4 nozzle\", \"sub_path\": \"machine/Generic 0.4 nozzle.json\"}],\
        \"filament_list\": [{\"name\": \"Generic PLA\", \"sub_path\": \"filament/Generic PLA.json\"}],\
        \"process_list\": [{\"name\": \"0.20mm Standard @Generic\", \"sub_path\": \"process/0.20mm Standard @Generic.json\"}],\
        \"custom\": {\"keep\": null, \"me\": 1}\
    }";
    VendorJsonSchema::from_json(&parse_json(text).unwrap()).unwrap()
}

#[test]
fn duplicate_renames_vendor_and_every_list_entry() {
    let (renamed, machine_moves, model_moves, filament_moves, process_moves) =
        duplicate_vendor(vendor(), "Generic", "Acme", &no_exempt());
    assert_eq!(renamed.name, "Acme");
    assert_eq!(renamed.version.as_deref(), Some("1.0.0"));

    let machines = renamed.machine_list.as_ref().unwrap();
    assert_eq!(machines[0].name, "Acme 0.4 nozzle");
    assert_eq!(machines[0].sub_path, "machine/Acme 0.4 nozzle.json");
    assert_eq!(machine_moves[0].0, "machine/Generic 0.4 nozzle.json");
    assert_eq!(machine_moves[0].1, "machine/Acme 0.4 nozzle.json");

    let models = renamed.machine_model_list.as_ref().unwrap();
    assert_eq!(models[0].name, "Acme Model");
    assert_eq!(models[0].sub_path, "machine/Acme Model.json");
    assert_eq!(model_moves.len(), 1);

    let filaments = renamed.filament_list.as_ref().unwrap();
    assert_eq!(filaments[0].name, "Acme PLA");
    assert_eq!(filaments[0].sub_path, "filament/Acme PLA.json");
    assert_eq!(filament_moves.len(), 1);

    let processes = renamed.process_list.as_ref().unwrap();
    assert_eq!(processes[0].name, "0.20mm Standard @Acme");
    assert_eq!(processes[0].sub_path, "process/0.20mm Standard @Acme.json");
    assert_eq!(process_moves.len(), 1);
}

#[test]
fn duplicated_entries_keep_name_and_sub_path_aligned() {
    let (renamed, _, _, _, _) = duplicate_vendor(vendor(), "Generic", "Acme", &no_exempt());
    for list in [
        renamed.machine_list.as_ref().unwrap(),
        renamed.machine_model_list.as_ref().unwrap(),
        renamed.filament_list.as_ref().unwrap(),
        renamed.process_list.as_ref().unwrap(),
    ] {
        for entry in list.iter() {
            let base = entry.sub_path.rsplit('/').next().unwrap();
            let stem = base.strip_suffix(".json").unwrap();
            assert_eq!(stem, entry.name);
        }
    }
}

#[test]
fn exempt_entries_keep_their_name() {
    let list = Some(vec![profile_graph::profiles::ConfigNameAndPath {
        name: "Library PLA".to_string(),
        sub_path: "filament/Library PLA.json".to_string(),
    }]);
    let (rewritten, moves) = rewrite_list_entries(
        list,
        "Generic",
        "Acme",
        &exempt(&["Library PLA"]),
    );
    let entries = rewritten.unwrap();
    assert_eq!(entries[0].name, "Library PLA");
    assert_eq!(entries[0].sub_path, "filament/Library PLA.json");
    assert_eq!(moves[0].0, "filament/Library PLA.json");
    assert_eq!(moves[0].1, "filament/Library PLA.json");
}

#[test]
fn absent_list_stays_absent() {
    let (rewritten, moves) = rewrite_list_entries(None, "Generic", "Acme", &no_exempt());
    assert!(rewritten.is_none());
    assert!(moves.is_empty());
}

#[test]
fn filament_rewrite_updates_inherits_and_compatible_printers() {
    let text = "{\
        \"name\": \"Generic PLA\",\
        \"inherits\": \"Generic PLA Base\",\
        \"instantiation\": \"true\",\
        \"compatible_printers\": [\"Generic 0.4 nozzle\", \"Other Printer\"],\
        \"filament_id\": \"GFL01\"\
    }";
    let mut config = FilamentJsonSchema::from_json(&parse_json(text).unwrap()).unwrap();
    let entry = profile_graph::profiles::ConfigNameAndPath {
        name: "Acme PLA".to_string(),
        sub_path: "filament/Acme PLA.json".to_string(),
    };
    rewrite_filament(&mut config, &entry, "Generic", "Acme", &no_exempt());
    assert_eq!(config.name, "Acme PLA");
    assert_eq!(config.inherits.as_deref(), Some("Acme PLA Base"));
    assert_eq!(config.instantiation.as_deref(), Some("true"));
    let printers = config.extra.0.iter().find(|(k, _)| k == "compatible_printers").unwrap();
    match &printers.1 {
        Json::Arr(items) => {
            assert_eq!(items.len(), 2);
            match (&items[0], &items[1]) {
                (Json::Str(a), Json::Str(b)) => {
                    assert_eq!(a, "Acme 0.4 nozzle");
                    assert_eq!(b, "Acme Other Printer");
                }
                other => panic!("{other:?}"),
            }
        }
        other => panic!("{other:?}"),
    }
    let id = config.extra.0.iter().find(|(k, _)| k == "filament_id").unwrap();
    match &id.1 {
        Json::Str(v) => assert_eq!(v, "GFL01"),
        other => panic!("{other:?}"),
    }
}

#[test]
fn process_rewrite_matches_filament_rewrite_shape() {
    let text = "{\
        \"name\": \"0.20mm Standard @Generic\",\
        \"inherits\": \"0.20mm Base\",\
        \"compatible_printers\": [\"Generic 0.4 nozzle\"]\
    }";
    let mut config = ProcessJsonSchema::from_json(&parse_json(text).unwrap()).unwrap();
    let entry = profile_graph::profiles::ConfigNameAndPath {
        name: "0.20mm Standard @Acme".to_string(),
        sub_path: "process/0.20mm Standard @Acme.json".to_string(),
    };
    rewrite_process(&mut config, &entry, "Generic", "Acme", &no_exempt());
    assert_eq!(config.name, "0.20mm Standard @Acme");
    assert_eq!(config.inherits.as_deref(), Some("Acme 0.20mm Base"));
}

#[test]
fn variant_rewrite_updates_model_and_default_profiles() {
    let text = "{\
        \"name\": \"Generic 0.4 nozzle\",\
        \"inherits\": \"fdm_machine_common\",\
        \"printer_model\": \"Generic Model\",\
        \"default_print_profile\": \"0.20mm Standard @Generic\",\
        \"default_filament_profile\": [\"Generic PLA\"]\
    }";
    let mut config = PrinterVariantJsonSchema::from_json(&parse_json(text).unwrap()).unwrap();
    let entry = profile_graph::profiles::ConfigNameAndPath {
        name: "Acme 0.4 nozzle".to_string(),
        sub_path: "machine/Acme 0.4 nozzle.json".to_string(),
    };
    rewrite_printer_variant(&mut config, &entry, "Generic", "Acme", &no_exempt());
    assert_eq!(config.name, "Acme 0.4 nozzle");
    assert_eq!(config.inherits.as_deref(), Some("Acme fdm_machine_common"));
    assert_eq!(config.printer_model.as_deref(), Some("Acme Model"));
    let print_profile = config.extra.0.iter().find(|(k, _)| k == "default_print_profile").unwrap();
    match &print_profile.1 {
        Json::Str(v) => assert_eq!(v, "0.20mm Standard @Acme"),
        other => panic!("{other:?}"),
    }
    let filaments = config.extra.0.iter().find(|(k, _)| k == "default_filament_profile").unwrap();
    match &filaments.1 {
        Json::Arr(items) => match &items[0] {
            Json::Str(v) => assert_eq!(v, "Acme PLA"),
            other => panic!("{other:?}"),
        },
        other => panic!("{other:?}"),
    }
}

#[test]
fn model_rewrite_updates_family_and_default_materials() {
    let text = "{\
        \"name\": \"Generic Model\",\
        \"type\": \"machine_model\",\
        \"nozzle_diameter\": \"0.4\",\
        \"family\": \"Generic\",\
        \"default_materials\": \"Generic PLA;Generic PETG;Library ABS\"\
    }";
    let mut config = PrinterModelJsonSchema::from_json(&parse_json(text).unwrap()).unwrap();
    let entry = profile_graph::profiles::ConfigNameAndPath {
        name: "Acme Model".to_string(),
        sub_path: "machine/Acme Model.json".to_string(),
    };
    rewrite_printer_model(&mut config, &entry, "Generic", "Acme", &exempt(&["Library ABS"]));
    assert_eq!(config.name, "Acme Model");
    assert_eq!(config.family, "Acme");
    assert_eq!(config.preset_type, "machine_model");
    let materials = config.extra.0.iter().find(|(k, _)| k == "default_materials").unwrap();
    match &materials.1 {
        Json::Str(v) => assert_eq!(v, "Acme PLA;Acme PETG;Library ABS"),
        other => panic!("{other:?}"),
    }
}

#[test]
fn extra_fields_survive_a_parse_rewrite_serialize_round_trip() {
    let text = "{\
        \"name\": \"Generic PLA\",\
        \"unknown_number\": 42,\
        \"unknown_object\": {\"nested\": [1, 2]},\
        \"drop_me\": null\
    }";
    let mut config = FilamentJsonSchema::from_json(&parse_json(text).unwrap()).unwrap();
    let entry = profile_graph::profiles::ConfigNameAndPath {
        name: "Acme PLA".to_string(),
        sub_path: "filament/Acme PLA.json".to_string(),
    };
    rewrite_filament(&mut config, &entry, "Generic", "Acme", &no_exempt());
    let out = strip_json(&config.to_json());
    let rendered = json_to_pretty_string(&out);
    let back = parse_json(&rendered).unwrap();
    match json_get(&back, "unknown_number") {
        Some(Json::Num(v)) => assert_eq!(v, "42"),
        other => panic!("{other:?}"),
    }
    assert!(json_get(&back, "unknown_object").is_some());
    // nulls are stripped on save: both the explicit null and the absent options
    assert!(json_get(&back, "drop_me").is_none());
    assert!(json_get(&back, "inherits").is_none());
    match json_get(&back, "name") {
        Some(Json::Str(v)) => assert_eq!(v, "Acme PLA"),
        other => panic!("{other:?}"),
    }
}

#[test]
fn vendor_to_json_round_trips_through_the_outside_parser() {
    let v = vendor();
    let out = strip_json(&v.to_json());
    let rendered = json_to_pretty_string(&out);
    let value: serde_json::Value = serde_json::from_str(&rendered).unwrap();
    assert_eq!(value["name"], "Generic");
    assert_eq!(value["version"], "1.0.0");
    assert_eq!(value["custom"]["me"], 1);
    // the null member of the preserved extra object is stripped on save
    assert!(value["custom"].get("keep").is_none());
    assert_eq!(value["machine_list"][0]["sub_path"], "machine/Generic 0.4 nozzle.json");
}

#[test]
fn mistyped_documents_are_rejected() {
    assert!(VendorJsonSchema::from_json(&parse_json("{\"version\": \"1\"}").unwrap()).is_err());
    assert!(VendorJsonSchema::from_json(
        &parse_json("{\"name\": \"V\", \"machine_list\": \"not a list\"}").unwrap(),
    ).is_err());
    assert!(FilamentJsonSchema::from_json(
        &parse_json("{\"name\": \"F\", \"inherits\": 3}").unwrap(),
    ).is_err());
    assert!(PrinterModelJsonSchema::from_json(
        &parse_json("{\"name\": \"M\", \"type\": \"t\", \"family\": \"f\"}").unwrap(),
    ).is_err());
    assert!(FilamentJsonSchema::from_json(&parse_json("[1]").unwrap()).is_err());
}
