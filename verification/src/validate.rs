//! The validation engine: referential-integrity checks over a vendor tree
//! and pattern/required-field checks over a single installed profile,
//! producing severity-classified messages. File reads and existence checks
//! are done by the caller, which hands their outcomes in as plain values.

use vstd::prelude::*;
use crate::analysis::{
    AnalysisMap, AnalysisMessageDetails, AnalysisMessageDetailsV, ConfigDetails, ConfigDetailsV,
    ErrType, ErrWan, ErrWanV, FILE_KEY, insert_or_push_into_map, extend_combine_map,
    filter_analysis_results_into_errors_and_warning, spec_insert_or_push, spec_extend_combine,
    spec_filter_map,
};
use crate::collision::KeySet;
use crate::json::{fields_get, fields_get_v, json_get, json_get_v, Json, JsonV};
use crate::profiles::{
    opt_refs_view, opt_str_view, refs_view, ConfigNameAndPath, Extra, FilamentJsonSchema,
    PrinterVariantJsonSchema, ProcessJsonSchema, VendorJsonSchema,
};
use crate::strings::{
    chars_of, has_prefix, last_index_of, lower_of, lowercase, prefix_chars, rfind_char, str_eq,
    string_from_chars,
};

verus! {

/// The lenient boolean vocabulary: `true`/`1`/`yes` and `false`/`0`/`no`,
/// read after lower-casing; anything else means nothing.
pub open spec fn spec_str_to_bool(l: Seq<char>) -> Option<bool> {
    if l == "true"@ || l == "1"@ || l == "yes"@ {
        Option::Some(true)
    } else if l == "false"@ || l == "0"@ || l == "no"@ {
        Option::Some(false)
    } else {
        Option::None
    }
}

/// Reads a lenient boolean, case-insensitively.
pub fn str_to_bool(s: &str) -> (r: Option<bool>)
    ensures
        r == spec_str_to_bool(lower_of(s@)),
{
    let low = lowercase(s);
    if str_eq(low.as_str(), "true") || str_eq(low.as_str(), "1") || str_eq(low.as_str(), "yes") {
        Option::Some(true)
    } else if str_eq(low.as_str(), "false") || str_eq(low.as_str(), "0") || str_eq(
        low.as_str(),
        "no",
    ) {
        Option::Some(false)
    } else {
        Option::None
    }
}

/// Whether a profile counts as instantiated: its `instantiation` field
/// read as a lenient boolean, defaulting to false when absent or unreadable.
pub open spec fn spec_instantiated(inst: Option<Seq<char>>) -> bool {
    match inst {
        Option::Some(s) => spec_str_to_bool(lower_of(s)) == Option::<bool>::Some(true),
        Option::None => false,
    }
}

/// An ASCII letter or digit.
pub open spec fn is_ascii_alphanumeric_char(c: char) -> bool {
    ||| 'a' <= c <= 'z'
    ||| 'A' <= c <= 'Z'
    ||| '0' <= c <= '9'
}

/// A pattern of `^` followed by ASCII letters and digits: a valid regular
/// expression that anchors a literal prefix. Its length is bounded so that
/// compiling it cannot hit the expression compiler's default size limit;
/// the engine's own patterns are four characters long.
pub open spec fn is_caret_literal_pattern(p: Seq<char>) -> bool {
    &&& 1 <= p.len() <= 4096
    &&& p[0] == '^'
    &&& forall|i: int| 1 <= i < p.len() ==> is_ascii_alphanumeric_char(#[trigger] p[i])
}

/// Relies on `regex::Regex::new` and `Regex::is_match`: a pattern of `^`
/// followed by at most a few thousand ASCII letters and digits compiles
/// (the length bound keeps it far under the default compiled-size limit),
/// and it matches exactly the strings that start with that literal prefix.
#[verifier::external_body]
fn caret_pattern_matches(pattern: &str, text: &str) -> (r: bool)
    requires
        is_caret_literal_pattern(pattern@),
    ensures
        r == has_prefix(text@, pattern@.skip(1)),
{
    match regex::Regex::new(pattern) {
        Ok(re) => re.is_match(text),
        Err(_) => false,
    }
}

/// A finding with the given identity, text and severity.
pub open spec fn msg_v(d: ConfigDetailsV, text: Seq<char>, severity: ErrType) -> AnalysisMessageDetailsV {
    AnalysisMessageDetailsV { config_details: d, message: ErrWanV { text, severity } }
}

/// Builds a finding value.
fn make_message(config_details: ConfigDetails, text: String, severity: ErrType) -> (r:
    AnalysisMessageDetails)
    ensures
        r@ == msg_v(config_details@, text@, severity),
{
    AnalysisMessageDetails { config_details, message: ErrWan { text, severity } }
}

/// The text reported when a required key is missing from a config.
pub open spec fn missing_key_text(key: Seq<char>) -> Seq<char> {
    "The key "@ + key + ", does not exist in the config. This can cause issues"@
}

fn make_missing_key_text(key: &str) -> (r: String)
    ensures
        r@ == missing_key_text(key@),
{
    String::from_str("The key ").concat(key).concat(
        ", does not exist in the config. This can cause issues",
    )
}

/// The text reported when a key's value does not match its pattern.
pub open spec fn pattern_text(key: Seq<char>, pattern: Seq<char>) -> Seq<char> {
    "The key "@ + key + ", does not meet the set pattern: "@ + pattern
}

fn make_pattern_text(key: &str, pattern: &str) -> (r: String)
    ensures
        r@ == pattern_text(key@, pattern@),
{
    String::from_str("The key ").concat(key).concat(", does not meet the set pattern: ").concat(
        pattern,
    )
}

/// What a pattern check leaves in the message map: nothing new when the
/// key's string value carries the pattern's prefix; an `Error` under the
/// key when it does not — a present value that is not a string never
/// matches, so it is reported the same way; an `Error` under the sentinel
/// key when the key is absent.
pub open spec fn spec_check_setting(
    m: Seq<(Seq<char>, Seq<AnalysisMessageDetailsV>)>,
    extra: Seq<(Seq<char>, JsonV)>,
    key: Seq<char>,
    pattern: Seq<char>,
    d: ConfigDetailsV,
) -> Seq<(Seq<char>, Seq<AnalysisMessageDetailsV>)> {
    match fields_get_v(extra, key) {
        Option::None => spec_insert_or_push(
            m,
            FILE_KEY@,
            msg_v(d, missing_key_text(key), ErrType::Error),
        ),
        Option::Some(v) => if v is Str && has_prefix(v->Str_0, pattern.skip(1)) {
            m
        } else {
            spec_insert_or_push(m, key, msg_v(d, pattern_text(key, pattern), ErrType::Error))
        },
    }
}

/// Runs one pattern check over a document's extra fields.
fn check_setting_pattern(
    analysis_result: &mut AnalysisMap<AnalysisMessageDetails>,
    extra: &Extra,
    key: &str,
    regex: &str,
    config_details: ConfigDetails,
)
    requires
        is_caret_literal_pattern(regex@),
    ensures
        final(analysis_result)@ == spec_check_setting(
            old(analysis_result)@,
            extra@,
            key@,
            regex@,
            config_details@,
        ),
{
    match fields_get(&extra.0, key) {
        Option::Some(v) => {
            let matches_pattern = match v {
                Json::Str(s) => caret_pattern_matches(regex, s.as_str()),
                _ => false,
            };
            if !matches_pattern {
                let text = make_pattern_text(key, regex);
                let msg = make_message(config_details, text, ErrType::Error);
                insert_or_push_into_map(analysis_result, String::from_str(key), msg);
            }
        }
        Option::None => {
            let text = make_missing_key_text(key);
            let msg = make_message(config_details, text, ErrType::Error);
            insert_or_push_into_map(analysis_result, String::from_str(FILE_KEY), msg);
        }
    }
}

/// Checks the pattern-conformance of an identifier key of a filament
/// document.
pub fn check_filament_setting_id(
    analysis_result: &mut AnalysisMap<AnalysisMessageDetails>,
    parsed_config: &FilamentJsonSchema,
    key: &str,
    regex: &str,
    config_details: ConfigDetails,
)
    requires
        is_caret_literal_pattern(regex@),
    ensures
        final(analysis_result)@ == spec_check_setting(
            old(analysis_result)@,
            parsed_config.extra@,
            key@,
            regex@,
            config_details@,
        ),
{
    check_setting_pattern(analysis_result, &parsed_config.extra, key, regex, config_details);
}

/// Checks the pattern-conformance of an identifier key of a machine-variant
/// document.
pub fn check_printer_setting_id(
    analysis_result: &mut AnalysisMap<AnalysisMessageDetails>,
    parsed_config: &PrinterVariantJsonSchema,
    key: &str,
    regex: &str,
    config_details: ConfigDetails,
)
    requires
        is_caret_literal_pattern(regex@),
    ensures
        final(analysis_result)@ == spec_check_setting(
            old(analysis_result)@,
            parsed_config.extra@,
            key@,
            regex@,
            config_details@,
        ),
{
    check_setting_pattern(analysis_result, &parsed_config.extra, key, regex, config_details);
}

/// Checks the pattern-conformance of an identifier key of a process
/// document.
pub fn check_process_setting_id(
    analysis_result: &mut AnalysisMap<AnalysisMessageDetails>,
    parsed_config: &ProcessJsonSchema,
    key: &str,
    regex: &str,
    config_details: ConfigDetails,
)
    requires
        is_caret_literal_pattern(regex@),
    ensures
        final(analysis_result)@ == spec_check_setting(
            old(analysis_result)@,
            parsed_config.extra@,
            key@,
            regex@,
            config_details@,
        ),
{
    check_setting_pattern(analysis_result, &parsed_config.extra, key, regex, config_details);
}

/// The existence-check outcomes, seen as character sequences.
pub open spec fn outcomes_view(s: Seq<Result<bool, String>>) -> Seq<Result<bool, Seq<char>>> {
    Seq::new(
        s.len(),
        |i: int|
            match s[i] {
                Result::Ok(b) => Result::Ok(b),
                Result::Err(e) => Result::Err(e@),
            },
    )
}

/// The text reported when a referenced config file does not exist.
pub open spec fn not_exist_text(name: Seq<char>, path: Seq<char>) -> Seq<char> {
    "Config '"@ + name + "' does not exist at '"@ + path + "'"@
}

fn make_not_exist_text(name: &str, path: &str) -> (r: String)
    ensures
        r@ == not_exist_text(name@, path@),
{
    String::from_str("Config '").concat(name).concat("' does not exist at '").concat(path).concat(
        "'",
    )
}

/// The text reported when a vendor document lacks a reference list.
pub open spec fn no_list_text(list_type: Seq<char>) -> Seq<char> {
    "Config does not contain the key '"@ + list_type + "'"@
}

fn make_no_list_text(list_type: &str) -> (r: String)
    ensures
        r@ == no_list_text(list_type@),
{
    String::from_str("Config does not contain the key '").concat(list_type).concat("'")
}

/// The findings about the entries of one reference list, given for each
/// entry the outcome of checking the referenced file: nothing when it
/// exists, an `Error` naming the resolved path when it does not, and an
/// `Error` carrying the I/O message when the check itself failed.
pub open spec fn spec_entry_msgs(
    entries: Seq<(Seq<char>, Seq<char>)>,
    outcomes: Seq<Result<bool, Seq<char>>>,
    dir: Seq<char>,
    d: ConfigDetailsV,
) -> Seq<AnalysisMessageDetailsV>
    decreases entries,
{
    if entries.len() == 0 {
        Seq::empty()
    } else {
        let rest = spec_entry_msgs(entries.drop_first(), outcomes.drop_first(), dir, d);
        match outcomes[0] {
            Result::Ok(exists) => if exists {
                rest
            } else {
                seq![
                    msg_v(
                        d,
                        not_exist_text(entries[0].0, dir + "/"@ + entries[0].1),
                        ErrType::Error,
                    ),
                ] + rest
            },
            Result::Err(e) => seq![msg_v(d, e, ErrType::Error)] + rest,
        }
    }
}

/// What the integrity check of one reference list produces: a single
/// `Warning` under the sentinel key when the list is absent from the
/// document; otherwise the per-entry findings, collected under the list's
/// field name, or nothing when every entry is in order.
pub open spec fn spec_check_if_configs_exist(
    list: Option<Seq<(Seq<char>, Seq<char>)>>,
    dir: Seq<char>,
    outcomes: Seq<Result<bool, Seq<char>>>,
    d: ConfigDetailsV,
    list_type: Seq<char>,
) -> Seq<(Seq<char>, Seq<AnalysisMessageDetailsV>)> {
    match list {
        Option::None => seq![
            (FILE_KEY@, seq![msg_v(d, no_list_text(list_type), ErrType::Warning)]),
        ],
        Option::Some(entries) => {
            let msgs = spec_entry_msgs(entries, outcomes, dir, d);
            if msgs.len() == 0 {
                Seq::empty()
            } else {
                seq![(list_type, msgs)]
            }
        }
    }
}

proof fn lemma_entry_msgs_suffix(
    entries: Seq<(Seq<char>, Seq<char>)>,
    outcomes: Seq<Result<bool, Seq<char>>>,
    dir: Seq<char>,
    d: ConfigDetailsV,
    i: int,
)
    requires
        0 <= i < entries.len(),
        entries.len() == outcomes.len(),
    ensures
        spec_entry_msgs(
            entries.subrange(i, entries.len() as int),
            outcomes.subrange(i, outcomes.len() as int),
            dir,
            d,
        ) == {
            let rest = spec_entry_msgs(
                entries.subrange(i + 1, entries.len() as int),
                outcomes.subrange(i + 1, outcomes.len() as int),
                dir,
                d,
            );
            match outcomes[i] {
                Result::Ok(exists) => if exists {
                    rest
                } else {
                    seq![
                        msg_v(
                            d,
                            not_exist_text(entries[i].0, dir + "/"@ + entries[i].1),
                            ErrType::Error,
                        ),
                    ] + rest
                },
                Result::Err(e) => seq![msg_v(d, e, ErrType::Error)] + rest,
            }
        },
{
    let tail_e = entries.subrange(i, entries.len() as int);
    let tail_o = outcomes.subrange(i, outcomes.len() as int);
    assert(tail_e.len() > 0);
    assert(tail_e[0] == entries[i]);
    assert(tail_o[0] == outcomes[i]);
    assert(tail_e.drop_first() =~= entries.subrange(i + 1, entries.len() as int));
    assert(tail_o.drop_first() =~= outcomes.subrange(i + 1, outcomes.len() as int));
}

/// Verifies that every entry of one reference list points at an existing
/// file, given the outcome of each existence check, and reports a
/// `Warning` when the list itself is absent from the vendor document.
#[verifier::loop_isolation(false)]
pub fn check_if_configs_exist(
    machine_model_list: &Option<Vec<ConfigNameAndPath>>,
    config_dir_path: &str,
    existence: &Vec<Result<bool, String>>,
    vendor_config_details: &ConfigDetails,
    list_type: String,
) -> (r: AnalysisMap<AnalysisMessageDetails>)
    requires
        (*machine_model_list) matches Option::Some(l) ==> existence@.len() == l@.len(),
    ensures
        r@ == spec_check_if_configs_exist(
            opt_refs_view(*machine_model_list),
            config_dir_path@,
            outcomes_view(existence@),
            vendor_config_details@,
            list_type@,
        ),
{
    match machine_model_list {
        Option::Some(entries) => {
            let ghost refs = refs_view(entries@);
            let ghost outs = outcomes_view(existence@);
            let ghost d = vendor_config_details@;
            let ghost all = spec_entry_msgs(refs, outs, config_dir_path@, d);
            let mut msgs: Vec<AnalysisMessageDetails> = Vec::new();
            let mut i: usize = 0;
            proof {
                assert(refs.subrange(0, refs.len() as int) =~= refs);
                assert(outs.subrange(0, outs.len() as int) =~= outs);
                assert(crate::analysis::deep_seq(msgs@) =~= Seq::<
                    AnalysisMessageDetailsV,
                >::empty());
            }
            while i < entries.len()
                invariant
                    i <= entries@.len(),
                    existence@.len() == entries@.len(),
                    all == crate::analysis::deep_seq(msgs@) + spec_entry_msgs(
                        refs.subrange(i as int, refs.len() as int),
                        outs.subrange(i as int, outs.len() as int),
                        config_dir_path@,
                        d,
                    ),
                decreases entries@.len() - i,
            {
                proof {
                    lemma_entry_msgs_suffix(refs, outs, config_dir_path@, d, i as int);
                }
                let ghost prev = msgs@;
                match &existence[i] {
                    Result::Ok(exists) => {
                        if !*exists {
                            let complete_path = String::from_str(config_dir_path).concat(
                                "/",
                            ).concat(entries[i].sub_path.as_str());
                            let text = make_not_exist_text(
                                entries[i].name.as_str(),
                                complete_path.as_str(),
                            );
                            let msg = make_message(
                                vendor_config_details.duplicate(),
                                text,
                                ErrType::Error,
                            );
                            msgs.push(msg);
                        }
                    }
                    Result::Err(e) => {
                        let msg = make_message(
                            vendor_config_details.duplicate(),
                            e.clone(),
                            ErrType::Error,
                        );
                        msgs.push(msg);
                    }
                }
                proof {
                    if msgs@.len() > prev.len() {
                        assert(crate::analysis::deep_seq(msgs@) =~= crate::analysis::deep_seq(
                            prev,
                        ) + seq![msgs@.last()@]);
                        assert(crate::analysis::deep_seq(prev) + (seq![msgs@.last()@]
                            + spec_entry_msgs(
                            refs.subrange(i + 1, refs.len() as int),
                            outs.subrange(i + 1, outs.len() as int),
                            config_dir_path@,
                            d,
                        )) =~= crate::analysis::deep_seq(msgs@) + spec_entry_msgs(
                            refs.subrange(i + 1, refs.len() as int),
                            outs.subrange(i + 1, outs.len() as int),
                            config_dir_path@,
                            d,
                        ));
                    }
                }
                i += 1;
            }
            proof {
                assert(refs.subrange(refs.len() as int, refs.len() as int) =~= Seq::<
                    (Seq<char>, Seq<char>),
                >::empty());
                assert(outs.subrange(outs.len() as int, outs.len() as int) =~= Seq::<
                    Result<bool, Seq<char>>,
                >::empty());
                assert(crate::analysis::deep_seq(msgs@) + Seq::<AnalysisMessageDetailsV>::empty()
                    =~= crate::analysis::deep_seq(msgs@));
            }
            if msgs.len() == 0 {
                let r = AnalysisMap::new();
                r
            } else {
                let mut r: AnalysisMap<AnalysisMessageDetails> = AnalysisMap::new();
                r.entries.push((list_type, msgs));
                proof {
                    assert(r@ =~= seq![(list_type@, all)]);
                }
                r
            }
        }
        Option::None => {
            let text = make_no_list_text(list_type.as_str());
            let msg = make_message(vendor_config_details.duplicate(), text, ErrType::Warning);
            let mut fresh: Vec<AnalysisMessageDetails> = Vec::new();
            fresh.push(msg);
            let mut r: AnalysisMap<AnalysisMessageDetails> = AnalysisMap::new();
            r.entries.push((String::from_str(FILE_KEY), fresh));
            proof {
                assert(crate::analysis::deep_seq(fresh@) =~= seq![
                    msg_v(vendor_config_details@, no_list_text(list_type@), ErrType::Warning),
                ]);
                assert(r@ =~= seq![
                    (
                        FILE_KEY@,
                        seq![
                            msg_v(
                                vendor_config_details@,
                                no_list_text(list_type@),
                                ErrType::Warning,
                            ),
                        ],
                    ),
                ]);
            }
            r
        }
    }
}

/// The directory that holds a vendor's child documents: the vendor file's
/// parent directory joined with the vendor's name.
pub open spec fn spec_config_dir(path: Seq<char>, name: Seq<char>) -> Seq<char> {
    if last_index_of(path, '/') >= 0 {
        path.subrange(0, last_index_of(path, '/')) + "/"@ + name
    } else {
        name
    }
}

/// Joins the parent directory of `path` with `name`.
fn config_dir_of(path: &str, name: &str) -> (r: String)
    ensures
        r@ == spec_config_dir(path@, name@),
{
    let cs = chars_of(path);
    proof {
        crate::strings::lemma_last_index_of(cs@, '/');
    }
    match rfind_char(&cs, '/') {
        Option::Some(idx) => {
            let pre = prefix_chars(&cs, idx);
            string_from_chars(&pre).concat("/").concat(name)
        }
        Option::None => String::from_str(name),
    }
}

/// The identity under which a vendor document's findings are filed.
pub open spec fn vendor_details_v(
    path: Seq<char>,
    location: Seq<char>,
    name: Seq<char>,
) -> ConfigDetailsV {
    ConfigDetailsV {
        name: name,
        file: path,
        family: Option::None,
        location: location,
        config_type: "vendor"@,
    }
}

/// The text reported when a vendor document lacks its version field.
pub open spec fn version_text() -> Seq<char> {
    "Config must contain the key 'config'"@
}

/// What the whole vendor integrity check collects before partitioning:
/// the version finding, then the findings of the four reference lists, in
/// the order model, machine, filament, process.
pub open spec fn spec_analyse_vendor(
    c: VendorJsonSchema,
    model_outs: Seq<Result<bool, Seq<char>>>,
    machine_outs: Seq<Result<bool, Seq<char>>>,
    filament_outs: Seq<Result<bool, Seq<char>>>,
    process_outs: Seq<Result<bool, Seq<char>>>,
    path: Seq<char>,
    location: Seq<char>,
    name: Seq<char>,
) -> Seq<(Seq<char>, Seq<AnalysisMessageDetailsV>)> {
    let d = vendor_details_v(path, location, name);
    let dir = spec_config_dir(path, name);
    let m0 = Seq::<(Seq<char>, Seq<AnalysisMessageDetailsV>)>::empty();
    let m1 = if c.version is None {
        spec_insert_or_push(m0, "version"@, msg_v(d, version_text(), ErrType::Error))
    } else {
        m0
    };
    let m2 = spec_extend_combine(
        m1,
        spec_check_if_configs_exist(
            opt_refs_view(c.machine_model_list),
            dir,
            model_outs,
            d,
            "machine_model_list"@,
        ),
    );
    let m3 = spec_extend_combine(
        m2,
        spec_check_if_configs_exist(
            opt_refs_view(c.machine_list),
            dir,
            machine_outs,
            d,
            "machine_list"@,
        ),
    );
    let m4 = spec_extend_combine(
        m3,
        spec_check_if_configs_exist(
            opt_refs_view(c.filament_list),
            dir,
            filament_outs,
            d,
            "filament_list"@,
        ),
    );
    let m5 = spec_extend_combine(
        m4,
        spec_check_if_configs_exist(
            opt_refs_view(c.process_list),
            dir,
            process_outs,
            d,
            "process_list"@,
        ),
    );
    m5
}

/// Runs the vendor integrity check over a parsed vendor document, given
/// the outcome of the existence check of every referenced file, and
/// partitions the findings into errors and warnings.
pub fn analyse_vendor_config(
    vendor: &VendorJsonSchema,
    model_exists: &Vec<Result<bool, String>>,
    machine_exists: &Vec<Result<bool, String>>,
    filament_exists: &Vec<Result<bool, String>>,
    process_exists: &Vec<Result<bool, String>>,
    path: String,
    config_location: String,
    name: String,
) -> (r: (AnalysisMap<AnalysisMessageDetails>, AnalysisMap<AnalysisMessageDetails>))
    requires
        vendor.machine_model_list matches Option::Some(l) ==> model_exists@.len() == l@.len(),
        vendor.machine_list matches Option::Some(l) ==> machine_exists@.len() == l@.len(),
        vendor.filament_list matches Option::Some(l) ==> filament_exists@.len() == l@.len(),
        vendor.process_list matches Option::Some(l) ==> process_exists@.len() == l@.len(),
    ensures
        r.0@ == spec_filter_map(
            spec_analyse_vendor(
                *vendor,
                outcomes_view(model_exists@),
                outcomes_view(machine_exists@),
                outcomes_view(filament_exists@),
                outcomes_view(process_exists@),
                path@,
                config_location@,
                name@,
            ),
            false,
        ),
        r.1@ == spec_filter_map(
            spec_analyse_vendor(
                *vendor,
                outcomes_view(model_exists@),
                outcomes_view(machine_exists@),
                outcomes_view(filament_exists@),
                outcomes_view(process_exists@),
                path@,
                config_location@,
                name@,
            ),
            true,
        ),
{
    let config_dir_path = config_dir_of(path.as_str(), name.as_str());
    let vendor_config_details = ConfigDetails::new(
        name.clone(),
        path.clone(),
        Option::None,
        config_location.clone(),
        String::from_str("vendor"),
    );
    let mut analysis_result: AnalysisMap<AnalysisMessageDetails> = AnalysisMap::new();
    match &vendor.version {
        Option::Some(_) => {}
        Option::None => {
            let msg = make_message(
                vendor_config_details.duplicate(),
                String::from_str("Config must contain the key 'config'"),
                ErrType::Error,
            );
            insert_or_push_into_map(&mut analysis_result, String::from_str("version"), msg);
        }
    }
    let model_configs_checks = check_if_configs_exist(
        &vendor.machine_model_list,
        config_dir_path.as_str(),
        model_exists,
        &vendor_config_details,
        String::from_str("machine_model_list"),
    );
    extend_combine_map(&mut analysis_result, model_configs_checks);
    let printer_configs_checks = check_if_configs_exist(
        &vendor.machine_list,
        config_dir_path.as_str(),
        machine_exists,
        &vendor_config_details,
        String::from_str("machine_list"),
    );
    extend_combine_map(&mut analysis_result, printer_configs_checks);
    let filament_configs_checks = check_if_configs_exist(
        &vendor.filament_list,
        config_dir_path.as_str(),
        filament_exists,
        &vendor_config_details,
        String::from_str("filament_list"),
    );
    extend_combine_map(&mut analysis_result, filament_configs_checks);
    let process_configs_checks = check_if_configs_exist(
        &vendor.process_list,
        config_dir_path.as_str(),
        process_exists,
        &vendor_config_details,
        String::from_str("process_list"),
    );
    extend_combine_map(&mut analysis_result, process_configs_checks);
    filter_analysis_results_into_errors_and_warning(analysis_result)
}

/// What the installed-filament check collects before partitioning: the
/// `setting_id` pattern check when the profile is instantiated, then the
/// unconditional `filament_id` pattern check.
pub open spec fn spec_analyse_filament(
    c: FilamentJsonSchema,
    path: Seq<char>,
    location: Seq<char>,
    name: Seq<char>,
    family: Seq<char>,
) -> Seq<(Seq<char>, Seq<AnalysisMessageDetailsV>)> {
    let d = ConfigDetailsV {
        name: name,
        file: path,
        family: Option::Some(family),
        location: location,
        config_type: "filament"@,
    };
    let m0 = Seq::<(Seq<char>, Seq<AnalysisMessageDetailsV>)>::empty();
    let m1 = if spec_instantiated(opt_str_view(c.instantiation)) {
        spec_check_setting(m0, c.extra@, "setting_id"@, "^GFS"@, d)
    } else {
        m0
    };
    spec_check_setting(m1, c.extra@, "filament_id"@, "^GF"@, d)
}

/// Reads a profile's instantiation flag leniently, defaulting to false.
fn read_instantiated(inst: &Option<String>) -> (r: bool)
    ensures
        r == spec_instantiated(opt_str_view(*inst)),
{
    match inst {
        Option::Some(s) => match str_to_bool(s.as_str()) {
            Option::Some(b) => b,
            Option::None => false,
        },
        Option::None => false,
    }
}

/// Checks an installed filament document: its `setting_id` must carry the
/// filament setting prefix when instantiated, and its `filament_id` must
/// always carry the filament prefix.
pub fn analyse_installed_filament_config(
    config: &FilamentJsonSchema,
    path: String,
    config_location: String,
    name: String,
    family: String,
) -> (r: (AnalysisMap<AnalysisMessageDetails>, AnalysisMap<AnalysisMessageDetails>))
    ensures
        r.0@ == spec_filter_map(
            spec_analyse_filament(*config, path@, config_location@, name@, family@),
            false,
        ),
        r.1@ == spec_filter_map(
            spec_analyse_filament(*config, path@, config_location@, name@, family@),
            true,
        ),
{
    proof {
        reveal_strlit("^GFS");
        reveal_strlit("^GF");
        assert(is_caret_literal_pattern("^GFS"@));
        assert(is_caret_literal_pattern("^GF"@));
    }
    let filament_config_details = ConfigDetails::new(
        name.clone(),
        path.clone(),
        Option::Some(family),
        config_location.clone(),
        String::from_str("filament"),
    );
    let mut analysis_result: AnalysisMap<AnalysisMessageDetails> = AnalysisMap::new();
    if read_instantiated(&config.instantiation) {
        check_filament_setting_id(
            &mut analysis_result,
            config,
            "setting_id",
            "^GFS",
            filament_config_details.duplicate(),
        );
    }
    check_filament_setting_id(
        &mut analysis_result,
        config,
        "filament_id",
        "^GF",
        filament_config_details,
    );
    filter_analysis_results_into_errors_and_warning(analysis_result)
}

/// A filament document without a `filament_id` key is reported with an
/// `Error` under the sentinel key, whatever its instantiation flag and
/// whatever its other fields say.
pub proof fn lemma_missing_filament_id_always_reported(
    c: FilamentJsonSchema,
    path: Seq<char>,
    location: Seq<char>,
    name: Seq<char>,
    family: Seq<char>,
)
    requires
        fields_get_v(c.extra@, "filament_id"@) is None,
    ensures
        ({
            let d = ConfigDetailsV {
                name: name,
                file: path,
                family: Option::Some(family),
                location: location,
                config_type: "filament"@,
            };
            let errors = spec_filter_map(
                spec_analyse_filament(c, path, location, name, family),
                false,
            );
            exists|i: int|
                {
                    &&& 0 <= i < errors.len()
                    &&& (#[trigger] errors[i]).0 == FILE_KEY@
                    &&& errors[i].1.contains(
                        msg_v(d, missing_key_text("filament_id"@), ErrType::Error),
                    )
                }
        }),
{
    let d = ConfigDetailsV {
        name: name,
        file: path,
        family: Option::Some(family),
        location: location,
        config_type: "filament"@,
    };
    let m0 = Seq::<(Seq<char>, Seq<AnalysisMessageDetailsV>)>::empty();
    let m1 = if spec_instantiated(opt_str_view(c.instantiation)) {
        spec_check_setting(m0, c.extra@, "setting_id"@, "^GFS"@, d)
    } else {
        m0
    };
    let msg = msg_v(d, missing_key_text("filament_id"@), ErrType::Error);
    let m2 = spec_analyse_filament(c, path, location, name, family);
    assert(m2 == crate::analysis::spec_insert_or_push(m1, FILE_KEY@, msg));
    crate::analysis::lemma_insert_or_push_membership(m1, FILE_KEY@, msg);
    let i = choose|i: int|
        0 <= i < m2.len() && (#[trigger] m2[i]).0 == FILE_KEY@ && m2[i].1.len() > 0
            && m2[i].1.last() == msg;
    crate::analysis::lemma_filter_map_keeps(m2, i, m2[i].1.len() - 1, false);
}

/// What the installed-printer check collects before partitioning: the
/// `setting_id` pattern check when the profile is instantiated.
pub open spec fn spec_analyse_printer(
    c: PrinterVariantJsonSchema,
    path: Seq<char>,
    location: Seq<char>,
    name: Seq<char>,
    family: Seq<char>,
) -> Seq<(Seq<char>, Seq<AnalysisMessageDetailsV>)> {
    let d = ConfigDetailsV {
        name: name,
        file: path,
        family: Option::Some(family),
        location: location,
        config_type: "filament"@,
    };
    let m0 = Seq::<(Seq<char>, Seq<AnalysisMessageDetailsV>)>::empty();
    if spec_instantiated(opt_str_view(c.instantiation)) {
        spec_check_setting(m0, c.extra@, "setting_id"@, "^GM"@, d)
    } else {
        m0
    }
}

/// Checks an installed machine-variant document: its `setting_id` must
/// carry the machine prefix when instantiated.
pub fn analyse_installed_printer_config(
    config: &PrinterVariantJsonSchema,
    path: String,
    config_location: String,
    name: String,
    family: String,
) -> (r: (AnalysisMap<AnalysisMessageDetails>, AnalysisMap<AnalysisMessageDetails>))
    ensures
        r.0@ == spec_filter_map(
            spec_analyse_printer(*config, path@, config_location@, name@, family@),
            false,
        ),
        r.1@ == spec_filter_map(
            spec_analyse_printer(*config, path@, config_location@, name@, family@),
            true,
        ),
{
    proof {
        reveal_strlit("^GM");
        assert(is_caret_literal_pattern("^GM"@));
    }
    let filament_config_details = ConfigDetails::new(
        name.clone(),
        path.clone(),
        Option::Some(family),
        config_location.clone(),
        String::from_str("filament"),
    );
    let mut analysis_result: AnalysisMap<AnalysisMessageDetails> = AnalysisMap::new();
    if read_instantiated(&config.instantiation) {
        check_printer_setting_id(
            &mut analysis_result,
            config,
            "setting_id",
            "^GM",
            filament_config_details,
        );
    }
    filter_analysis_results_into_errors_and_warning(analysis_result)
}

/// What the installed-process check collects before partitioning: the
/// `setting_id` pattern check when the profile is instantiated.
pub open spec fn spec_analyse_process(
    c: ProcessJsonSchema,
    path: Seq<char>,
    location: Seq<char>,
    name: Seq<char>,
    family: Seq<char>,
) -> Seq<(Seq<char>, Seq<AnalysisMessageDetailsV>)> {
    let d = ConfigDetailsV {
        name: name,
        file: path,
        family: Option::Some(family),
        location: location,
        config_type: "filament"@,
    };
    let m0 = Seq::<(Seq<char>, Seq<AnalysisMessageDetailsV>)>::empty();
    if spec_instantiated(opt_str_view(c.instantiation)) {
        spec_check_setting(m0, c.extra@, "setting_id"@, "^GP"@, d)
    } else {
        m0
    }
}

/// Checks an installed process document: its `setting_id` must carry the
/// process prefix when instantiated.
pub fn analyse_installed_process_config(
    config: &ProcessJsonSchema,
    path: String,
    config_location: String,
    name: String,
    family: String,
) -> (r: (AnalysisMap<AnalysisMessageDetails>, AnalysisMap<AnalysisMessageDetails>))
    ensures
        r.0@ == spec_filter_map(
            spec_analyse_process(*config, path@, config_location@, name@, family@),
            false,
        ),
        r.1@ == spec_filter_map(
            spec_analyse_process(*config, path@, config_location@, name@, family@),
            true,
        ),
{
    proof {
        reveal_strlit("^GP");
        assert(is_caret_literal_pattern("^GP"@));
    }
    let filament_config_details = ConfigDetails::new(
        name.clone(),
        path.clone(),
        Option::Some(family),
        config_location.clone(),
        String::from_str("filament"),
    );
    let mut analysis_result: AnalysisMap<AnalysisMessageDetails> = AnalysisMap::new();
    if read_instantiated(&config.instantiation) {
        check_process_setting_id(
            &mut analysis_result,
            config,
            "setting_id",
            "^GP",
            filament_config_details,
        );
    }
    filter_analysis_results_into_errors_and_warning(analysis_result)
}

/// The text reported when a key's value collides with a known identifier.
pub open spec fn collision_text(k: Seq<char>, v: Seq<char>) -> Seq<char> {
    "Collision detected for key '"@ + k + "' with value '"@ + v + "'"@
}

fn make_collision_text(k: &str, v: &str) -> (r: String)
    ensures
        r@ == collision_text(k@, v@),
{
    String::from_str("Collision detected for key '").concat(k).concat("' with value '").concat(
        v,
    ).concat("'")
}

/// The text reported when the checked key is absent from the document.
pub open spec fn key_absent_text(k: Seq<char>) -> Seq<char> {
    "Key does not exist in the config '"@ + k + "'"@
}

fn make_key_absent_text(k: &str) -> (r: String)
    ensures
        r@ == key_absent_text(k@),
{
    String::from_str("Key does not exist in the config '").concat(k).concat("'")
}

/// What the collision check collects before partitioning, always under the
/// checked key: one `Warning` when the key's string value is a known
/// identifier, nothing when it is unknown, and one `Warning` when the key
/// is absent or not a string. Both outcomes are warnings, never errors.
pub open spec fn spec_check_collision(
    doc: JsonV,
    k: Seq<char>,
    set: Set<Seq<char>>,
    d: ConfigDetailsV,
) -> Seq<(Seq<char>, Seq<AnalysisMessageDetailsV>)> {
    let msgs = match json_get_v(doc, k) {
        Option::Some(v) => if v is Str {
            if set.contains(v->Str_0) {
                seq![msg_v(d, collision_text(k, v->Str_0), ErrType::Warning)]
            } else {
                Seq::empty()
            }
        } else {
            seq![msg_v(d, key_absent_text(k), ErrType::Warning)]
        },
        Option::None => seq![msg_v(d, key_absent_text(k), ErrType::Warning)],
    };
    seq![(k, msgs)]
}

/// Checks one key of a parsed document against the collision registry and
/// partitions the findings (all of them warnings).
pub fn check_collision_in_config_file(
    doc: &Json,
    key_to_check: String,
    state: &KeySet,
    path: String,
    config_location: String,
    name: String,
    family: Option<String>,
    config_type: String,
) -> (r: (AnalysisMap<AnalysisMessageDetails>, AnalysisMap<AnalysisMessageDetails>))
    ensures
        r.0@ == spec_filter_map(
            spec_check_collision(
                doc@,
                key_to_check@,
                state@,
                ConfigDetailsV {
                    name: name@,
                    file: path@,
                    family: opt_str_view(family),
                    location: config_location@,
                    config_type: config_type@,
                },
            ),
            false,
        ),
        r.1@ == spec_filter_map(
            spec_check_collision(
                doc@,
                key_to_check@,
                state@,
                ConfigDetailsV {
                    name: name@,
                    file: path@,
                    family: opt_str_view(family),
                    location: config_location@,
                    config_type: config_type@,
                },
            ),
            true,
        ),
{
    let ghost d = ConfigDetailsV {
        name: name@,
        file: path@,
        family: opt_str_view(family),
        location: config_location@,
        config_type: config_type@,
    };
    let config_details = ConfigDetails::new(name, path, family, config_location, config_type);
    proof {
        assert(config_details@ == d);
    }
    let mut messages: Vec<AnalysisMessageDetails> = Vec::new();
    match json_get(doc, key_to_check.as_str()) {
        Option::Some(v) => match v {
            Json::Str(s) => {
                if state.contains(s.as_str()) {
                    let text = make_collision_text(key_to_check.as_str(), s.as_str());
                    messages.push(make_message(config_details, text, ErrType::Warning));
                }
            }
            _ => {
                let text = make_key_absent_text(key_to_check.as_str());
                messages.push(make_message(config_details, text, ErrType::Warning));
            }
        },
        Option::None => {
            let text = make_key_absent_text(key_to_check.as_str());
            messages.push(make_message(config_details, text, ErrType::Warning));
        }
    }
    let mut analysis_result: AnalysisMap<AnalysisMessageDetails> = AnalysisMap::new();
    let ghost msgs_v = crate::analysis::deep_seq(messages@);
    analysis_result.entries.push((key_to_check, messages));
    proof {
        assert(analysis_result@ =~~= spec_check_collision(doc@, key_to_check@, state@, d));
    }
    filter_analysis_results_into_errors_and_warning(analysis_result)
}

} // verus!
