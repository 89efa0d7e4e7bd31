//! Reports on the target, its platform and its loaded modules.
//!
//! Each report is a JSON object whose fields depend on what the arguments
//! ask for; a failed debugger operation is passed on as an error.

use vstd::prelude::*;
use crate::error::{fails_op, IncodeError};
use crate::json::{
    arg_bool_or, arg_get, arg_u64, as_text, as_uint, entry, field, is_text_array, jstr, keys,
    lemma_lookup_at, lookup,
    opt_view, text_array, text_field, Arguments, Json,
};
use crate::lldb_manager::target::{
    is_module_info, is_platform_info, is_target_info, listed_module_indices, RawModule,
    RawPlatform,
};
use crate::lldb_manager::{
    str_opt, LldbManager, ModuleInfo, PlatformInfo, TargetInfo,
};
use crate::text::{dec_str, dec_string, hex_addr, hex_address, views};
use crate::tools::{flag_arg, has_text, has_value};

verus! {

broadcast use vstd::string::group_string_axioms;

/// One for a present value, zero for an absent one.
pub open spec fn count_of<T>(o: Option<T>) -> int {
    if o is Some {
        1
    } else {
        0
    }
}

// ---------------------------------------------------------------------------
// get_target_info
// ---------------------------------------------------------------------------

/// `j` reports the target `t`: always its path, architecture, platform,
/// format and byte order; its debug state where `debug` asks for it; its
/// file details where `file` asks for them, with the entry point, base
/// address and creation time (`creation_secs`, in whole seconds since the
/// Unix epoch) that are known; and an estimated symbol count where
/// `analyze` asks for it.
pub open spec fn is_target_report(
    j: Json,
    t: TargetInfo,
    creation_secs: Option<u64>,
    debug: bool,
    file: bool,
    analyze: bool,
) -> bool {
    let d: int = if debug {
        2
    } else {
        0
    };
    let f: int = if file {
        2 + count_of(t.entry_point) + count_of(t.base_address) + count_of(creation_secs)
    } else {
        0
    };
    let a: int = if analyze {
        2
    } else {
        0
    };
    j matches Json::Object(es) && {
        let es = es@;
        &&& es.len() == 5 + d + f + a
        &&& has_text(es, 0, "executable_path"@, t.executable_path@)
        &&& has_text(es, 1, "architecture"@, t.architecture@)
        &&& has_text(es, 2, "platform"@, t.platform@)
        &&& has_text(es, 3, "executable_format"@, t.executable_format@)
        &&& has_text(es, 4, "endianness"@, t.endianness@)
        &&& debug ==> has_value(es, 5, "has_debug_symbols"@, Json::Bool(t.has_debug_symbols))
            && has_value(es, 6, "is_stripped"@, Json::Bool(t.is_stripped))
        &&& file ==> {
            let b = 5 + d;
            let e = b + 2 + count_of(t.entry_point);
            let c = e + count_of(t.base_address);
            &&& has_value(es, b, "file_size"@, Json::UInt(t.file_size))
            &&& has_value(es, b + 1, "is_pie"@, Json::Bool(t.is_pie))
            &&& t.entry_point matches Some(x) ==> has_text(es, b + 2, "entry_point"@, hex_addr(x as nat))
            &&& t.base_address matches Some(x) ==> has_text(es, e, "base_address"@, hex_addr(x as nat))
            &&& creation_secs matches Some(s) ==> has_text(es, c, "creation_time"@, dec_str(s as nat))
        }
        &&& analyze ==> {
            let c = 5 + d + f;
            &&& has_value(es, c, "symbol_analysis_enabled"@, Json::Bool(true))
            &&& has_value(es, c + 1, "symbol_count_estimated"@, Json::UInt(1000))
        }
    }
}

/// The name of field `i` of a report of the target `t`.
pub open spec fn target_key_at(
    i: int,
    t: TargetInfo,
    creation_secs: Option<u64>,
    debug: bool,
    file: bool,
) -> Seq<char> {
    let d: int = if debug {
        2
    } else {
        0
    };
    let b = 5 + d;
    let e = b + 2 + count_of(t.entry_point);
    let c = e + count_of(t.base_address);
    let f: int = if file {
        2 + count_of(t.entry_point) + count_of(t.base_address) + count_of(creation_secs)
    } else {
        0
    };
    if i == 0 {
        "executable_path"@
    } else if i == 1 {
        "architecture"@
    } else if i == 2 {
        "platform"@
    } else if i == 3 {
        "executable_format"@
    } else if i == 4 {
        "endianness"@
    } else if debug && i == 5 {
        "has_debug_symbols"@
    } else if debug && i == 6 {
        "is_stripped"@
    } else if file && i == b {
        "file_size"@
    } else if file && i == b + 1 {
        "is_pie"@
    } else if file && t.entry_point is Some && i == b + 2 {
        "entry_point"@
    } else if file && t.base_address is Some && i == e {
        "base_address"@
    } else if file && creation_secs is Some && i == c {
        "creation_time"@
    } else if i == b + f {
        "symbol_analysis_enabled"@
    } else {
        "symbol_count_estimated"@
    }
}

proof fn lemma_target_keys(
    j: Json,
    t: TargetInfo,
    creation_secs: Option<u64>,
    debug: bool,
    file: bool,
    analyze: bool,
)
    requires
        is_target_report(j, t, creation_secs, debug, file, analyze),
    ensures
        forall|i: int|
            0 <= i < keys(j).len() ==> #[trigger] keys(j)[i] == target_key_at(
                i,
                t,
                creation_secs,
                debug,
                file,
            ),
{
    if let Json::Object(es) = j {
        let es = es@;
        assert forall|i: int| 0 <= i < keys(j).len() implies #[trigger] keys(j)[i] == target_key_at(
            i,
            t,
            creation_secs,
            debug,
            file,
        ) by {
            assert(keys(j)[i] == es[i].0@);
        }
    }
}

proof fn lemma_target_text_fields(
    j: Json,
    t: TargetInfo,
    creation_secs: Option<u64>,
    debug: bool,
    file: bool,
    analyze: bool,
)
    requires
        is_target_report(j, t, creation_secs, debug, file, analyze),
    ensures
        text_field(j, "executable_path"@) == Some(t.executable_path@),
        text_field(j, "architecture"@) == Some(t.architecture@),
        text_field(j, "endianness"@) == Some(t.endianness@),
{
    reveal_strlit("executable_path");
    reveal_strlit("architecture");
    reveal_strlit("platform");
    reveal_strlit("executable_format");
    reveal_strlit("endianness");
    if let Json::Object(es) = j {
        assert(es@[0].0@ == "executable_path"@);
        assert(es@[1].0@ == "architecture"@);
        assert(es@[2].0@ == "platform"@);
        assert(es@[4].0@ == "endianness"@);
        assert(field(j, "executable_path"@) == Some(es@[0].1));
        assert("executable_path"@.len() == 15);
        assert(es@[0].0@ != "architecture"@);
        let s1 = es@.drop_first();
        let s2 = s1.drop_first();
        let s3 = s2.drop_first();
        let s4 = s3.drop_first();
        assert(s1[0] == es@[1] && s2[0] == es@[2] && s3[0] == es@[3] && s4[0] == es@[4]);
        assert(lookup(s1, "architecture"@) == Some(es@[1].1));
        assert(field(j, "architecture"@) == Some(es@[1].1));
        assert(lookup(s4, "endianness"@) == Some(es@[4].1));
        assert(es@[3].0@ == "executable_format"@);
        assert("executable_format"@.len() == 17 && "endianness"@.len() == 10);
        assert(es@[3].0@ != "endianness"@);
        assert(lookup(s3, "endianness"@) == Some(es@[4].1));
        assert(es@[2].0@ != "endianness"@);
        assert(lookup(s2, "endianness"@) == Some(es@[4].1));
        assert("architecture"@.len() == 12);
        assert(es@[1].0@ != "endianness"@);
        assert(lookup(s1, "endianness"@) == Some(es@[4].1));
        assert(field(j, "endianness"@) == Some(es@[4].1));
    }
}

proof fn lemma_target_key_presence(
    j: Json,
    t: TargetInfo,
    creation_secs: Option<u64>,
    debug: bool,
    file: bool,
    analyze: bool,
)
    requires
        is_target_report(j, t, creation_secs, debug, file, analyze),
    ensures
        keys(j).contains("has_debug_symbols"@) <==> debug,
        keys(j).contains("file_size"@) <==> file,
        keys(j).contains("entry_point"@) <==> file && t.entry_point is Some,
        keys(j).contains("symbol_analysis_enabled"@) <==> analyze,
{
    reveal_strlit("executable_path");
    reveal_strlit("architecture");
    reveal_strlit("platform");
    reveal_strlit("executable_format");
    reveal_strlit("endianness");
    reveal_strlit("has_debug_symbols");
    reveal_strlit("is_stripped");
    reveal_strlit("file_size");
    reveal_strlit("is_pie");
    reveal_strlit("entry_point");
    reveal_strlit("base_address");
    reveal_strlit("creation_time");
    reveal_strlit("symbol_analysis_enabled");
    reveal_strlit("symbol_count_estimated");
    lemma_target_keys(j, t, creation_secs, debug, file, analyze);
    let ks = keys(j);
    let d: int = if debug {
        2
    } else {
        0
    };
    let b = 5 + d;
    let f: int = if file {
        2 + count_of(t.entry_point) + count_of(creation_secs) + count_of(t.base_address)
    } else {
        0
    };
    if debug {
        assert(ks[5] == "has_debug_symbols"@);
    }
    if file {
        assert(ks[b] == "file_size"@);
        if t.entry_point is Some {
            assert(ks[b + 2] == "entry_point"@);
        }
    }
    if analyze {
        assert(ks[b + f] == "symbol_analysis_enabled"@);
    }
    assert("executable_format"@[0] != "has_debug_symbols"@[0]);
    assert("executable_format"@ != "has_debug_symbols"@);
    assert("is_stripped"@[0] != "entry_point"@[0]);
    assert("is_stripped"@ != "entry_point"@);
    if ks.contains("has_debug_symbols"@) {
        let i = choose|i: int| 0 <= i < ks.len() && ks[i] == "has_debug_symbols"@;
        assert(target_key_at(i, t, creation_secs, debug, file) == "has_debug_symbols"@);
    }
    if ks.contains("file_size"@) {
        let i = choose|i: int| 0 <= i < ks.len() && ks[i] == "file_size"@;
        assert(target_key_at(i, t, creation_secs, debug, file) == "file_size"@);
    }
    if ks.contains("entry_point"@) {
        let i = choose|i: int| 0 <= i < ks.len() && ks[i] == "entry_point"@;
        assert(target_key_at(i, t, creation_secs, debug, file) == "entry_point"@);
    }
    if ks.contains("symbol_analysis_enabled"@) {
        let i = choose|i: int| 0 <= i < ks.len() && ks[i] == "symbol_analysis_enabled"@;
        assert(target_key_at(i, t, creation_secs, debug, file) == "symbol_analysis_enabled"@);
    }
}

/// A target report always gives the target's path, architecture and byte
/// order; it has the debug state exactly when `include_debug_info` asks
/// for it, the file size exactly when `include_file_details` does, the
/// entry point exactly when file details are asked for and the entry point
/// is known, and the symbol analysis exactly when `analyze_symbols` asks
/// for it.
pub proof fn law_target_report_fields(
    j: Json,
    t: TargetInfo,
    creation_secs: Option<u64>,
    debug: bool,
    file: bool,
    analyze: bool,
)
    requires
        is_target_report(j, t, creation_secs, debug, file, analyze),
    ensures
        text_field(j, "executable_path"@) == Some(t.executable_path@),
        text_field(j, "architecture"@) == Some(t.architecture@),
        text_field(j, "endianness"@) == Some(t.endianness@),
        keys(j).contains("has_debug_symbols"@) <==> debug,
        keys(j).contains("file_size"@) <==> file,
        keys(j).contains("entry_point"@) <==> file && t.entry_point is Some,
        keys(j).contains("symbol_analysis_enabled"@) <==> analyze,
{
    lemma_target_key_presence(j, t, creation_secs, debug, file, analyze);
    lemma_target_text_fields(j, t, creation_secs, debug, file, analyze);
}

/// Reports the target `t`, created `creation_secs` whole seconds after the
/// Unix epoch where that is known.
pub fn target_report(t: &TargetInfo, creation_secs: Option<u64>, debug: bool, file: bool, analyze: bool) -> (j:
    Json)
    ensures
        is_target_report(j, *t, creation_secs, debug, file, analyze),
{
    let mut es: Vec<(String, Json)> = Vec::new();
    es.push(entry("executable_path", Json::Str(t.executable_path.clone())));
    es.push(entry("architecture", Json::Str(t.architecture.clone())));
    es.push(entry("platform", Json::Str(t.platform.clone())));
    es.push(entry("executable_format", Json::Str(t.executable_format.clone())));
    es.push(entry("endianness", Json::Str(t.endianness.clone())));
    if debug {
        es.push(entry("has_debug_symbols", Json::Bool(t.has_debug_symbols)));
        es.push(entry("is_stripped", Json::Bool(t.is_stripped)));
    }
    let ghost before_file = es@;
    if file {
        es.push(entry("file_size", Json::UInt(t.file_size)));
        es.push(entry("is_pie", Json::Bool(t.is_pie)));
        match t.entry_point {
            Some(x) => {
                es.push(entry("entry_point", Json::Str(hex_address(x))));
            },
            None => {},
        }
        match t.base_address {
            Some(x) => {
                es.push(entry("base_address", Json::Str(hex_address(x))));
            },
            None => {},
        }
        match creation_secs {
            Some(s) => {
                es.push(entry("creation_time", Json::Str(dec_string(s))));
            },
            None => {},
        }
    }
    let ghost before_analyze = es@;
    if analyze {
        es.push(entry("symbol_analysis_enabled", Json::Bool(true)));
        es.push(entry("symbol_count_estimated", Json::UInt(1000)));
    }
    proof {
        assert(es@.subrange(0, before_file.len() as int) =~= before_file) by {
            assert(forall|i: int| 0 <= i < before_file.len() ==> es@[i] == before_file[i]);
        }
    }
    Json::Object(es)
}

/// Reports the target, from its triple, platform name and executable path
/// as the debugger gave them (each missing where it gave none) and the
/// size and creation time of its file (`creation_secs`: that time in whole
/// seconds since the Unix epoch, where it is known and not before the
/// epoch), with its debug state
/// (`include_debug_info`) and file details (`include_file_details`) unless
/// they are turned off and an estimated symbol count where
/// `analyze_symbols` asks for it.
pub fn get_target_info(
    manager: &LldbManager,
    arguments: &Arguments,
    triple: Option<String>,
    platform_name: Option<String>,
    executable_path: Option<String>,
    file_size: u64,
    creation_time: Option<std::time::SystemTime>,
    creation_secs: Option<u64>,
) -> (r: Result<Json, IncodeError>)
    ensures
        !manager.target_selected() ==> fails_op(r, "No active target for target info"@),
        manager.target_selected() ==> (r matches Ok(j) && exists|t: TargetInfo|
            #[trigger] is_target_info(
                t,
                triple,
                platform_name,
                executable_path,
                file_size,
                creation_time,
            ) && is_target_report(
                j,
                t,
                creation_secs,
                flag_arg(arguments@, "include_debug_info"@, true),
                flag_arg(arguments@, "include_file_details"@, true),
                flag_arg(arguments@, "analyze_symbols"@, false),
            )),
{
    let debug = arg_bool_or(arguments, "include_debug_info", true);
    let file = arg_bool_or(arguments, "include_file_details", true);
    let analyze = arg_bool_or(arguments, "analyze_symbols", false);
    let ghost (tr, pn, ep, ct) = (triple, platform_name, executable_path, creation_time);
    match manager.get_target_info(triple, platform_name, executable_path, file_size, creation_time) {
        Ok(t) => {
            let j = target_report(&t, creation_secs, debug, file, analyze);
            assert(is_target_info(t, tr, pn, ep, file_size, ct));
            assert(is_target_report(
                j,
                t,
                creation_secs,
                flag_arg(arguments@, "include_debug_info"@, true),
                flag_arg(arguments@, "include_file_details"@, true),
                flag_arg(arguments@, "analyze_symbols"@, false),
            ));
            Ok(j)
        },
        Err(e) => Err(e),
    }
}

// ---------------------------------------------------------------------------
// get_platform_info
// ---------------------------------------------------------------------------

/// `j` reports the platform `p`: always its name, version, architecture,
/// byte order, vendor, environment, working directory, supported
/// architectures and, where known, host name; its SDK version and
/// deployment target, where known, if `dev` asks for them; and its
/// capabilities if `caps` asks for them.
pub open spec fn is_platform_report(j: Json, p: PlatformInfo, dev: bool, caps: bool) -> bool {
    let h = 10 + count_of(p.hostname);
    let v: int = if dev {
        count_of(p.sdk_version) + count_of(p.deployment_target)
    } else {
        0
    };
    j matches Json::Object(es) && {
        let es = es@;
        &&& es.len() == h + v + if caps {
            3int
        } else {
            0int
        }
        &&& has_text(es, 0, "name"@, p.name@)
        &&& has_text(es, 1, "platform_name"@, p.name@)
        &&& has_text(es, 2, "version"@, p.version@)
        &&& has_text(es, 3, "os_version"@, p.version@)
        &&& has_text(es, 4, "architecture"@, p.architecture@)
        &&& has_text(es, 5, "byte_order"@, "little"@)
        &&& has_text(es, 6, "vendor"@, p.vendor@)
        &&& has_text(es, 7, "environment"@, p.environment@)
        &&& has_text(es, 8, "working_directory"@, p.working_directory@)
        &&& es[9].0@ == "supported_architectures"@ && is_text_array(
            es[9].1,
            views(p.supported_architectures@),
        )
        &&& p.hostname matches Some(n) ==> has_text(es, 10, "hostname"@, n@)
        &&& dev ==> (p.sdk_version matches Some(s) ==> has_text(es, h, "sdk_version"@, s@))
            && (p.deployment_target matches Some(d) ==> has_text(
            es,
            h + count_of(p.sdk_version),
            "deployment_target"@,
            d@,
        ))
        &&& caps ==> {
            &&& has_value(es, h + v, "is_simulator"@, Json::Bool(p.is_simulator))
            &&& has_value(es, h + v + 1, "is_remote"@, Json::Bool(p.is_remote))
            &&& has_value(es, h + v + 2, "supports_jit"@, Json::Bool(p.supports_jit))
        }
    }
}

/// The name of field `i` of a report of the platform `p`.
pub open spec fn platform_key_at(i: int, p: PlatformInfo, dev: bool) -> Seq<char> {
    let h = 10 + count_of(p.hostname);
    let v: int = if dev {
        count_of(p.sdk_version) + count_of(p.deployment_target)
    } else {
        0
    };
    if i == 0 {
        "name"@
    } else if i == 1 {
        "platform_name"@
    } else if i == 2 {
        "version"@
    } else if i == 3 {
        "os_version"@
    } else if i == 4 {
        "architecture"@
    } else if i == 5 {
        "byte_order"@
    } else if i == 6 {
        "vendor"@
    } else if i == 7 {
        "environment"@
    } else if i == 8 {
        "working_directory"@
    } else if i == 9 {
        "supported_architectures"@
    } else if p.hostname is Some && i == 10 {
        "hostname"@
    } else if dev && p.sdk_version is Some && i == h {
        "sdk_version"@
    } else if dev && p.deployment_target is Some && i == h + count_of(p.sdk_version) {
        "deployment_target"@
    } else if i == h + v {
        "is_simulator"@
    } else if i == h + v + 1 {
        "is_remote"@
    } else {
        "supports_jit"@
    }
}

proof fn lemma_platform_keys(j: Json, p: PlatformInfo, dev: bool, caps: bool)
    requires
        is_platform_report(j, p, dev, caps),
    ensures
        forall|i: int| 0 <= i < keys(j).len() ==> #[trigger] keys(j)[i] == platform_key_at(i, p, dev),
{
    if let Json::Object(es) = j {
        assert forall|i: int| 0 <= i < keys(j).len() implies #[trigger] keys(j)[i] == platform_key_at(
            i,
            p,
            dev,
        ) by {
            assert(keys(j)[i] == es@[i].0@);
        }
    }
}

proof fn lemma_platform_text_fields(j: Json, p: PlatformInfo, dev: bool, caps: bool)
    requires
        is_platform_report(j, p, dev, caps),
    ensures
        text_field(j, "name"@) == Some(p.name@),
        text_field(j, "platform_name"@) == Some(p.name@),
        text_field(j, "version"@) == Some(p.version@),
        text_field(j, "os_version"@) == Some(p.version@),
        text_field(j, "byte_order"@) == Some("little"@),
{
    reveal_strlit("name");
    reveal_strlit("platform_name");
    reveal_strlit("version");
    reveal_strlit("os_version");
    reveal_strlit("architecture");
    reveal_strlit("byte_order");
    assert("os_version"@[0] != "byte_order"@[0]);
    if let Json::Object(es) = j {
        let es = es@;
        assert(es[0].0@ == "name"@ && es[1].0@ == "platform_name"@ && es[2].0@ == "version"@);
        assert(es[3].0@ == "os_version"@ && es[4].0@ == "architecture"@);
        assert("name"@.len() == 4 && "platform_name"@.len() == 13 && "version"@.len() == 7);
        assert("os_version"@.len() == 10 && "architecture"@.len() == 12 && "byte_order"@.len()
            == 10);
        lemma_lookup_at(es, "name"@, 0);
        assert(es[0].0@ != "platform_name"@);
        lemma_lookup_at(es, "platform_name"@, 1);
        assert forall|m: int| 0 <= m < 2 implies (#[trigger] es[m]).0@ != "version"@ by {
            if m == 0 {
            } else {
            }
        }
        lemma_lookup_at(es, "version"@, 2);
        assert forall|m: int| 0 <= m < 3 implies (#[trigger] es[m]).0@ != "os_version"@ by {
            if m == 0 {
            } else if m == 1 {
            } else {
            }
        }
        lemma_lookup_at(es, "os_version"@, 3);
        assert forall|m: int| 0 <= m < 5 implies (#[trigger] es[m]).0@ != "byte_order"@ by {
            if m == 0 {
            } else if m == 1 {
            } else if m == 2 {
            } else if m == 3 {
            } else {
            }
        }
        lemma_lookup_at(es, "byte_order"@, 5);
    }
}

proof fn lemma_platform_key_presence(j: Json, p: PlatformInfo, dev: bool, caps: bool)
    requires
        is_platform_report(j, p, dev, caps),
    ensures
        keys(j).contains("is_simulator"@) <==> caps,
        keys(j).contains("supports_jit"@) <==> caps,
        keys(j).contains("sdk_version"@) <==> dev && p.sdk_version is Some,
{
    reveal_strlit("name");
    reveal_strlit("platform_name");
    reveal_strlit("version");
    reveal_strlit("os_version");
    reveal_strlit("architecture");
    reveal_strlit("byte_order");
    reveal_strlit("vendor");
    reveal_strlit("environment");
    reveal_strlit("working_directory");
    reveal_strlit("supported_architectures");
    reveal_strlit("hostname");
    reveal_strlit("sdk_version");
    reveal_strlit("deployment_target");
    reveal_strlit("is_simulator");
    reveal_strlit("is_remote");
    reveal_strlit("supports_jit");
    assert("architecture"@[0] != "is_simulator"@[0]);
    assert("architecture"@[0] != "supports_jit"@[0]);
    assert("is_simulator"@[0] != "supports_jit"@[0]);
    assert("environment"@[0] != "sdk_version"@[0]);
    lemma_platform_keys(j, p, dev, caps);
    let ks = keys(j);
    let h = 10 + count_of(p.hostname);
    let v: int = if dev {
        count_of(p.sdk_version) + count_of(p.deployment_target)
    } else {
        0
    };
    if caps {
        assert(ks[h + v] == "is_simulator"@);
        assert(ks[h + v + 2] == "supports_jit"@);
    }
    if dev && p.sdk_version is Some {
        assert(ks[h] == "sdk_version"@);
    }
    if ks.contains("is_simulator"@) {
        let i = choose|i: int| 0 <= i < ks.len() && ks[i] == "is_simulator"@;
        assert(platform_key_at(i, p, dev) == "is_simulator"@);
    }
    if ks.contains("supports_jit"@) {
        let i = choose|i: int| 0 <= i < ks.len() && ks[i] == "supports_jit"@;
        assert(platform_key_at(i, p, dev) == "supports_jit"@);
    }
    if ks.contains("sdk_version"@) {
        let i = choose|i: int| 0 <= i < ks.len() && ks[i] == "sdk_version"@;
        assert(platform_key_at(i, p, dev) == "sdk_version"@);
    }
}

/// A platform report gives the platform's name under both `name` and
/// `platform_name`, its version under both `version` and `os_version`,
/// and `little` as the byte order; it lists the capabilities exactly when
/// `include_capabilities` asks for them, and the SDK version exactly when
/// `include_development_info` asks for it and the version is known.
pub proof fn law_platform_report_fields(j: Json, p: PlatformInfo, dev: bool, caps: bool)
    requires
        is_platform_report(j, p, dev, caps),
    ensures
        text_field(j, "name"@) == Some(p.name@),
        text_field(j, "platform_name"@) == Some(p.name@),
        text_field(j, "version"@) == Some(p.version@),
        text_field(j, "os_version"@) == Some(p.version@),
        text_field(j, "byte_order"@) == Some("little"@),
        keys(j).contains("is_simulator"@) <==> caps,
        keys(j).contains("supports_jit"@) <==> caps,
        keys(j).contains("sdk_version"@) <==> dev && p.sdk_version is Some,
{
    lemma_platform_text_fields(j, p, dev, caps);
    lemma_platform_key_presence(j, p, dev, caps);
}

/// Reports the platform `p`.
pub fn platform_report(p: &PlatformInfo, dev: bool, caps: bool) -> (j: Json)
    ensures
        is_platform_report(j, *p, dev, caps),
{
    let mut es: Vec<(String, Json)> = Vec::new();
    es.push(entry("name", Json::Str(p.name.clone())));
    es.push(entry("platform_name", Json::Str(p.name.clone())));
    es.push(entry("version", Json::Str(p.version.clone())));
    es.push(entry("os_version", Json::Str(p.version.clone())));
    es.push(entry("architecture", Json::Str(p.architecture.clone())));
    es.push(entry("byte_order", jstr("little")));
    es.push(entry("vendor", Json::Str(p.vendor.clone())));
    es.push(entry("environment", Json::Str(p.environment.clone())));
    es.push(entry("working_directory", Json::Str(p.working_directory.clone())));
    es.push(entry("supported_architectures", text_array(&p.supported_architectures)));
    proof {
        assert(p.supported_architectures@.map_values(|s: String| s@) =~= views(
            p.supported_architectures@,
        ));
    }
    match &p.hostname {
        Some(n) => {
            es.push(entry("hostname", Json::Str(n.clone())));
        },
        None => {},
    }
    if dev {
        match &p.sdk_version {
            Some(s) => {
                es.push(entry("sdk_version", Json::Str(s.clone())));
            },
            None => {},
        }
        match &p.deployment_target {
            Some(d) => {
                es.push(entry("deployment_target", Json::Str(d.clone())));
            },
            None => {},
        }
    }
    if caps {
        es.push(entry("is_simulator", Json::Bool(p.is_simulator)));
        es.push(entry("is_remote", Json::Bool(p.is_remote)));
        es.push(entry("supports_jit", Json::Bool(p.supports_jit)));
    }
    Json::Object(es)
}

/// Reports the target's platform (`platform`, missing where the debugger
/// gave none) for a target of triple `triple`, with `current_dir` standing
/// in for a working directory the platform does not give; with its
/// development details (`include_development_info`) and capabilities
/// (`include_capabilities`) unless they are turned off.
pub fn get_platform_info(
    manager: &LldbManager,
    arguments: &Arguments,
    platform: Option<RawPlatform>,
    triple: Option<String>,
    current_dir: String,
) -> (r: Result<Json, IncodeError>)
    ensures
        !manager.target_selected() ==> fails_op(r, "No active target for platform info"@),
        manager.target_selected() && platform is None ==> fails_op(
            r,
            "Failed to get platform from target"@,
        ),
        manager.target_selected() && platform is Some ==> (r matches Ok(j) && exists|p: PlatformInfo|
            #[trigger] is_platform_info(p, platform->0, triple, current_dir@) && is_platform_report(
                j,
                p,
                flag_arg(arguments@, "include_development_info"@, true),
                flag_arg(arguments@, "include_capabilities"@, true),
            )),
{
    let dev = arg_bool_or(arguments, "include_development_info", true);
    let caps = arg_bool_or(arguments, "include_capabilities", true);
    let ghost (pl, tr, cd) = (platform, triple, current_dir@);
    match manager.get_platform_info(platform, triple, current_dir) {
        Ok(p) => {
            let j = platform_report(&p, dev, caps);
            assert(is_platform_info(p, pl->0, tr, cd));
            Ok(j)
        },
        Err(e) => Err(e),
    }
}

// ---------------------------------------------------------------------------
// list_modules
// ---------------------------------------------------------------------------

/// The module name filter: `filter_name`, or `name_pattern` where there is
/// no `filter_name` at all.
pub open spec fn module_filter_arg(args: Seq<(String, Json)>) -> Option<Seq<char>> {
    match lookup(args, "filter_name"@) {
        Some(v) => as_text(Some(v)),
        None => as_text(lookup(args, "name_pattern"@)),
    }
}

/// The most modules to report, where a limit is given.
pub open spec fn limit_arg(args: Seq<(String, Json)>) -> Option<usize> {
    match as_uint(lookup(args, "limit"@)) {
        Some(n) => Some(n as usize),
        None => None,
    }
}

/// `v` describes module `m`: always its identity, file and debug state,
/// its version and symbol vendor where known; its addresses where
/// `addresses` asks for them; its symbol count where `symbols` asks for
/// it; and its compile units where `debug` asks for them and it has some.
pub open spec fn is_module_json(v: Json, m: ModuleInfo, debug: bool, addresses: bool, symbols: bool) -> bool {
    let b = 8 + count_of(m.version) + count_of(m.symbol_vendor);
    let a: int = if addresses {
        1 + count_of(m.slide)
    } else {
        0
    };
    let s: int = if symbols {
        1
    } else {
        0
    };
    let units = debug && m.compile_units@.len() > 0;
    v matches Json::Object(es) && {
        let es = es@;
        &&& es.len() == b + a + s + if units {
            1int
        } else {
            0int
        }
        &&& has_text(es, 0, "name"@, m.name@)
        &&& has_text(es, 1, "file_path"@, m.file_path@)
        &&& has_text(es, 2, "path"@, m.file_path@)
        &&& has_text(es, 3, "uuid"@, m.uuid@)
        &&& has_text(es, 4, "architecture"@, m.architecture@)
        &&& has_value(es, 5, "is_main_executable"@, Json::Bool(m.is_main_executable))
        &&& has_value(es, 6, "has_debug_symbols"@, Json::Bool(m.has_debug_symbols))
        &&& has_value(es, 7, "file_size"@, Json::UInt(m.file_size))
        &&& m.version matches Some(x) ==> has_text(es, 8, "version"@, x@)
        &&& m.symbol_vendor matches Some(x) ==> has_text(
            es,
            8 + count_of(m.version),
            "symbol_vendor"@,
            x@,
        )
        &&& addresses ==> has_text(es, b, "load_address"@, hex_addr(m.load_address as nat)) && (
        m.slide matches Some(x) ==> has_text(es, b + 1, "slide"@, hex_addr(x as nat)))
        &&& symbols ==> has_value(es, b + a, "num_symbols"@, Json::UInt(m.num_symbols as u64))
        &&& units ==> es[b + a + s].0@ == "compile_units"@ && is_text_array(
            es[b + a + s].1,
            views(m.compile_units@),
        )
    }
}

/// The modules reported out of `n`: all of them, or the first `limit`.
pub open spec fn reported_count(n: nat, limit: Option<usize>) -> nat {
    match limit {
        Some(l) => if l < n {
            l as nat
        } else {
            n
        },
        None => n,
    }
}

/// `j` reports the first modules of `mods`, as many as `limit` allows, with
/// the count reported, the count before the limit and the filter.
pub open spec fn is_module_report(
    j: Json,
    mods: Seq<ModuleInfo>,
    debug: bool,
    addresses: bool,
    symbols: bool,
    limit: Option<usize>,
    filter: Option<Seq<char>>,
) -> bool {
    let n = reported_count(mods.len(), limit);
    j matches Json::Object(es) && {
        let es = es@;
        &&& es.len() == 3 + count_of(filter)
        &&& es[0].0@ == "modules"@ && (es[0].1 matches Json::Array(items) && items@.len() == n
            && forall|i: int|
            0 <= i < n ==> is_module_json(#[trigger] items@[i], mods[i], debug, addresses, symbols))
        &&& has_value(es, 1, "count"@, Json::UInt(n as u64))
        &&& has_value(es, 2, "total_count"@, Json::UInt(mods.len() as u64))
        &&& filter matches Some(f) ==> has_text(es, 3, "filter_applied"@, f)
    }
}

/// The name of field `i` of the description of module `m`.
pub open spec fn module_key_at(i: int, m: ModuleInfo, debug: bool, addresses: bool, symbols: bool) -> Seq<char> {
    let b = 8 + count_of(m.version) + count_of(m.symbol_vendor);
    let a: int = if addresses {
        1 + count_of(m.slide)
    } else {
        0
    };
    let s: int = if symbols {
        1
    } else {
        0
    };
    if i == 0 {
        "name"@
    } else if i == 1 {
        "file_path"@
    } else if i == 2 {
        "path"@
    } else if i == 3 {
        "uuid"@
    } else if i == 4 {
        "architecture"@
    } else if i == 5 {
        "is_main_executable"@
    } else if i == 6 {
        "has_debug_symbols"@
    } else if i == 7 {
        "file_size"@
    } else if m.version is Some && i == 8 {
        "version"@
    } else if m.symbol_vendor is Some && i == 8 + count_of(m.version) {
        "symbol_vendor"@
    } else if addresses && i == b {
        "load_address"@
    } else if addresses && m.slide is Some && i == b + 1 {
        "slide"@
    } else if symbols && i == b + a {
        "num_symbols"@
    } else {
        "compile_units"@
    }
}

/// The description of a module names it; it has the load address exactly
/// when addresses are asked for, the symbol count exactly when symbols
/// are, and the compile units exactly when debug information is asked for
/// and the module has some.
pub proof fn law_module_json_fields(v: Json, m: ModuleInfo, debug: bool, addresses: bool, symbols: bool)
    requires
        is_module_json(v, m, debug, addresses, symbols),
    ensures
        text_field(v, "name"@) == Some(m.name@),
        keys(v).contains("load_address"@) <==> addresses,
        keys(v).contains("num_symbols"@) <==> symbols,
        keys(v).contains("compile_units"@) <==> debug && m.compile_units@.len() > 0,
{
    reveal_strlit("name");
    reveal_strlit("file_path");
    reveal_strlit("path");
    reveal_strlit("uuid");
    reveal_strlit("architecture");
    reveal_strlit("is_main_executable");
    reveal_strlit("has_debug_symbols");
    reveal_strlit("file_size");
    reveal_strlit("version");
    reveal_strlit("symbol_vendor");
    reveal_strlit("load_address");
    reveal_strlit("slide");
    reveal_strlit("num_symbols");
    reveal_strlit("compile_units");
    assert("architecture"@[0] != "load_address"@[0]);
    assert("symbol_vendor"@[0] != "compile_units"@[0]);
    let ks = keys(v);
    let b = 8 + count_of(m.version) + count_of(m.symbol_vendor);
    let a: int = if addresses {
        1 + count_of(m.slide)
    } else {
        0
    };
    let s: int = if symbols {
        1
    } else {
        0
    };
    if let Json::Object(es) = v {
        let es = es@;
        assert forall|i: int| 0 <= i < ks.len() implies #[trigger] ks[i] == module_key_at(
            i,
            m,
            debug,
            addresses,
            symbols,
        ) by {
            assert(ks[i] == es[i].0@);
        }
        lemma_lookup_at(es, "name"@, 0);
        if addresses {
            assert(ks[b] == "load_address"@);
        }
        if symbols {
            assert(ks[b + a] == "num_symbols"@);
        }
        if debug && m.compile_units@.len() > 0 {
            assert(ks[b + a + s] == "compile_units"@);
        }
        if ks.contains("load_address"@) {
            let i = choose|i: int| 0 <= i < ks.len() && ks[i] == "load_address"@;
            assert(module_key_at(i, m, debug, addresses, symbols) == "load_address"@);
        }
        if ks.contains("num_symbols"@) {
            let i = choose|i: int| 0 <= i < ks.len() && ks[i] == "num_symbols"@;
            assert(module_key_at(i, m, debug, addresses, symbols) == "num_symbols"@);
        }
        if ks.contains("compile_units"@) {
            let i = choose|i: int| 0 <= i < ks.len() && ks[i] == "compile_units"@;
            assert(module_key_at(i, m, debug, addresses, symbols) == "compile_units"@);
        }
    }
}

/// A module report gives the number of modules reported, which is the
/// number found cut to the limit where one is given, and the number found;
/// it describes exactly that many modules, the first ones found, in order;
/// and it names the filter exactly when one was given.
pub proof fn law_module_report_counts(
    j: Json,
    mods: Seq<ModuleInfo>,
    debug: bool,
    addresses: bool,
    symbols: bool,
    limit: Option<usize>,
    filter: Option<Seq<char>>,
)
    requires
        is_module_report(j, mods, debug, addresses, symbols, limit, filter),
        mods.len() <= u64::MAX,
    ensures
        field(j, "count"@) == Some(Json::UInt(reported_count(mods.len(), limit) as u64)),
        field(j, "total_count"@) == Some(Json::UInt(mods.len() as u64)),
        reported_count(mods.len(), limit) == match limit {
            Some(l) => if l < mods.len() {
                l as nat
            } else {
                mods.len()
            },
            None => mods.len(),
        },
        field(j, "modules"@) matches Some(Json::Array(items)) && items@.len() == reported_count(
            mods.len(),
            limit,
        ) && forall|i: int|
            0 <= i < items@.len() ==> text_field(#[trigger] items@[i], "name"@) == Some(mods[i].name@),
        keys(j).contains("filter_applied"@) <==> filter is Some,
{
    reveal_strlit("modules");
    reveal_strlit("count");
    reveal_strlit("total_count");
    reveal_strlit("filter_applied");
    if let Json::Object(es) = j {
        let es = es@;
        let ks = keys(j);
        assert(ks[0] == "modules"@ && ks[1] == "count"@ && ks[2] == "total_count"@);
        lemma_lookup_at(es, "modules"@, 0);
        lemma_lookup_at(es, "count"@, 1);
        assert forall|m: int| 0 <= m < 2 implies (#[trigger] es[m]).0@ != "total_count"@ by {
            if m == 0 {
            } else {
            }
        }
        lemma_lookup_at(es, "total_count"@, 2);
        if let Json::Array(items) = es[0].1 {
            assert forall|i: int| 0 <= i < items@.len() implies text_field(
                #[trigger] items@[i],
                "name"@,
            ) == Some(mods[i].name@) by {
                law_module_json_fields(items@[i], mods[i], debug, addresses, symbols);
            }
        }
        if filter is Some {
            assert(ks[3] == "filter_applied"@);
        }
        if ks.contains("filter_applied"@) {
            let i = choose|i: int| 0 <= i < ks.len() && ks[i] == "filter_applied"@;
            assert(ks[i] == es[i].0@);
            assert(i == 3);
        }
    }
}

fn module_json(m: &ModuleInfo, debug: bool, addresses: bool, symbols: bool) -> (v: Json)
    ensures
        is_module_json(v, *m, debug, addresses, symbols),
{
    let mut es: Vec<(String, Json)> = Vec::new();
    es.push(entry("name", Json::Str(m.name.clone())));
    es.push(entry("file_path", Json::Str(m.file_path.clone())));
    es.push(entry("path", Json::Str(m.file_path.clone())));
    es.push(entry("uuid", Json::Str(m.uuid.clone())));
    es.push(entry("architecture", Json::Str(m.architecture.clone())));
    es.push(entry("is_main_executable", Json::Bool(m.is_main_executable)));
    es.push(entry("has_debug_symbols", Json::Bool(m.has_debug_symbols)));
    es.push(entry("file_size", Json::UInt(m.file_size)));
    match &m.version {
        Some(x) => {
            es.push(entry("version", Json::Str(x.clone())));
        },
        None => {},
    }
    match &m.symbol_vendor {
        Some(x) => {
            es.push(entry("symbol_vendor", Json::Str(x.clone())));
        },
        None => {},
    }
    if addresses {
        es.push(entry("load_address", Json::Str(hex_address(m.load_address))));
        match m.slide {
            Some(x) => {
                es.push(entry("slide", Json::Str(hex_address(x))));
            },
            None => {},
        }
    }
    if symbols {
        es.push(entry("num_symbols", Json::UInt(m.num_symbols as u64)));
    }
    if debug && m.compile_units.len() > 0 {
        es.push(entry("compile_units", text_array(&m.compile_units)));
        proof {
            assert(m.compile_units@.map_values(|s: String| s@) =~= views(m.compile_units@));
        }
    }
    Json::Object(es)
}

/// Reports the modules `mods`, the first `limit` of them where a limit is
/// given.
pub fn module_report(
    mods: &Vec<ModuleInfo>,
    debug: bool,
    addresses: bool,
    symbols: bool,
    limit: Option<usize>,
    filter: &Option<String>,
) -> (j: Json)
    ensures
        is_module_report(j, mods@, debug, addresses, symbols, limit, opt_view(*filter)),
{
    let n: usize = match limit {
        Some(l) => if l < mods.len() {
            l
        } else {
            mods.len()
        },
        None => mods.len(),
    };
    let mut items: Vec<Json> = Vec::new();
    let mut i: usize = 0;
    while i < n
        invariant
            i <= n <= mods@.len(),
            items@.len() == i,
            forall|k: int|
                0 <= k < i ==> is_module_json(#[trigger] items@[k], mods@[k], debug, addresses, symbols),
        decreases n - i,
    {
        items.push(module_json(&mods[i], debug, addresses, symbols));
        i = i + 1;
    }
    let mut es: Vec<(String, Json)> = Vec::new();
    es.push(entry("modules", Json::Array(items)));
    es.push(entry("count", Json::UInt(n as u64)));
    es.push(entry("total_count", Json::UInt(mods.len() as u64)));
    match filter {
        Some(f) => {
            es.push(entry("filter_applied", Json::Str(f.clone())));
        },
        None => {},
    }
    Json::Object(es)
}

fn read_module_filter(args: &Arguments) -> (r: Option<String>)
    ensures
        opt_view(r) == module_filter_arg(args@),
{
    let v = match arg_get(args, "filter_name") {
        Some(v) => Some(v),
        None => arg_get(args, "name_pattern"),
    };
    match v {
        Some(Json::Str(s)) => Some(s.clone()),
        _ => None,
    }
}

/// Reports the modules of the target that the debugger could give
/// (`modules`, by index) whose name contains the filter (`filter_name`, or
/// `name_pattern`), as many as `limit` allows, with their debug
/// information and addresses unless turned off and their symbol counts
/// where `include_symbols` asks for them.
pub fn list_modules(manager: &LldbManager, arguments: &Arguments, modules: &Vec<Option<RawModule>>) -> (r:
    Result<Json, IncodeError>)
    requires
        modules@.len() <= u32::MAX,
    ensures
        !manager.target_selected() ==> fails_op(r, "No active target for module listing"@),
        manager.target_selected() ==> (r matches Ok(j) && exists|mods: Seq<ModuleInfo>|
            #[trigger] describes_modules(
                mods,
                modules@,
                module_filter_arg(arguments@),
                flag_arg(arguments@, "include_debug_info"@, true),
            ) && is_module_report(
                j,
                mods,
                flag_arg(arguments@, "include_debug_info"@, true),
                flag_arg(arguments@, "include_addresses"@, true),
                flag_arg(arguments@, "include_symbols"@, false),
                limit_arg(arguments@),
                module_filter_arg(arguments@),
            )),
{
    let filter = read_module_filter(arguments);
    let limit: Option<usize> = match arg_u64(arguments, "limit") {
        Some(n) => Some(#[verifier::truncate] (n as usize)),
        None => None,
    };
    let debug = arg_bool_or(arguments, "include_debug_info", true);
    let addresses = arg_bool_or(arguments, "include_addresses", true);
    let symbols = arg_bool_or(arguments, "include_symbols", false);
    let filter_text: Option<&str> = match &filter {
        Some(f) => Some(f.as_str()),
        None => None,
    };
    match manager.list_modules(filter_text, debug, modules) {
        Ok(mods) => {
            let j = module_report(&mods, debug, addresses, symbols, limit, &filter);
            assert(str_opt(filter_text) == opt_view(filter));
            assert forall|k: int| 0 <= k < mods@.len() implies listed_module_indices(
                modules@,
                opt_view(filter),
            )[k] < modules@.len() by {
                assert(is_module_info(
                    mods@[k],
                    modules@[listed_module_indices(modules@, opt_view(filter))[k] as int]->0,
                    listed_module_indices(modules@, opt_view(filter))[k],
                    debug,
                ));
            }
            assert(describes_modules(mods@, modules@, opt_view(filter), debug));
            assert(limit == limit_arg(arguments@));
            assert(is_module_report(
                j,
                mods@,
                flag_arg(arguments@, "include_debug_info"@, true),
                flag_arg(arguments@, "include_addresses"@, true),
                flag_arg(arguments@, "include_symbols"@, false),
                limit_arg(arguments@),
                module_filter_arg(arguments@),
            ));
            Ok(j)
        },
        Err(e) => Err(e),
    }
}

/// `mods` describe, in order, the modules of `raws` whose name contains
/// the filter.
pub open spec fn describes_modules(
    mods: Seq<ModuleInfo>,
    raws: Seq<Option<RawModule>>,
    filter: Option<Seq<char>>,
    debug: bool,
) -> bool {
    &&& mods.len() == listed_module_indices(raws, filter).len()
    &&& forall|k: int|
        0 <= k < mods.len() ==> listed_module_indices(raws, filter)[k] < raws.len()
            && is_module_info(
            #[trigger] mods[k],
            raws[listed_module_indices(raws, filter)[k] as int]->0,
            listed_module_indices(raws, filter)[k],
            debug,
        )
}

} // verus!
