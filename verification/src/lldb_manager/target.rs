//! What is known of the target, its modules, its platform and the
//! debugger: each read from what the engine reported, with the gaps the
//! engine left filled in.

use vstd::prelude::*;
use crate::error::{fails_op, IncodeError};
use crate::json::opt_view;
use crate::lldb_manager::{
    str_opt, LldbManager, LldbVersionInfo, ModuleInfo, PlatformInfo, TargetInfo,
};
use crate::text::{
    chars_of, dec_str, find_char, has_prefix, has_substr, has_suffix, str_ends_with, str_starts_with, index_of, lemma_split_nonempty, push_dec, push_str,
    sep_of, split_char, split_on, split_words, str_contains, str_eq, string_of_range, views, words,
};

verus! {

broadcast use vstd::string::group_string_axioms;

/// The text of `o`, `unknown` where it is missing.
pub open spec fn or_unknown(o: Option<String>) -> Seq<char> {
    match o {
        Some(s) => s@,
        None => "unknown"@,
    }
}

fn text_or_unknown(o: &Option<String>) -> (r: String)
    ensures
        r@ == or_unknown(*o),
{
    match o {
        Some(s) => s.clone(),
        None => "unknown".to_owned(),
    }
}

fn copy_opt(o: &Option<String>) -> (r: Option<String>)
    ensures
        r == *o,
{
    match o {
        Some(s) => Some(s.clone()),
        None => None,
    }
}

/// The piece `k` of `parts`, or `default` where there are not so many.
pub open spec fn piece_or(parts: Seq<Seq<char>>, k: int, default: Seq<char>) -> Seq<char> {
    if 0 <= k < parts.len() {
        parts[k]
    } else {
        default
    }
}

fn piece_at(parts: &Vec<String>, k: usize, default: &str) -> (r: String)
    ensures
        r@ == piece_or(views(parts@), k as int, default@),
{
    if k < parts.len() {
        parts[k].clone()
    } else {
        default.to_owned()
    }
}

/// The architecture named by a target triple: the text before its first
/// hyphen.
fn triple_architecture(triple: &str) -> (r: String)
    ensures
        r@ == split_char(triple@, '-')[0],
{
    let parts = split_on(triple, '-');
    proof {
        lemma_split_nonempty(triple@, sep_of(Some('-')));
    }
    piece_at(&parts, 0, "unknown")
}

// ---------------------------------------------------------------------------
// Modules
// ---------------------------------------------------------------------------

/// A module as the engine and the file system reported it. A part the
/// engine could not give is missing; the path is also missing where the
/// engine gave an empty one.
#[derive(Debug)]
pub struct RawModule {
    pub name: Option<String>,
    pub file_path: Option<String>,
    pub uuid: Option<String>,
    pub triple: Option<String>,
    pub version: Option<String>,
    pub num_symbols: u32,
    /// The size of the file at the module's path, zero where it cannot be
    /// read.
    pub file_size: u64,
}

/// The name of the module at index `i`: its own, else `module_` and the
/// index.
pub open spec fn module_name(raw: RawModule, i: nat) -> Seq<char> {
    match raw.name {
        Some(n) => n@,
        None => "module_"@ + dec_str(i),
    }
}

/// `m` describes the module at index `i` as the engine reported it in
/// `raw`. Load addresses and slides are laid out by index rather than
/// read; the first module is taken for the main executable; with debug
/// information asked for, the one compile unit listed is named after the
/// module.
pub open spec fn is_module_info(m: ModuleInfo, raw: RawModule, i: nat, include_debug_info: bool) -> bool {
    &&& m.name@ == module_name(raw, i)
    &&& m.file_path@ == or_unknown(raw.file_path)
    &&& m.uuid@ == or_unknown(raw.uuid)
    &&& m.architecture@ == split_char(or_unknown(raw.triple), '-')[0]
    &&& m.load_address == 0x1_0000_0000 + i * 0x1000_0000
    &&& m.file_size == raw.file_size
    &&& m.is_main_executable == (i == 0)
    &&& m.has_debug_symbols == (raw.num_symbols > 0)
    &&& opt_view(m.symbol_vendor) == if raw.num_symbols > 0 {
        Some("DWARF"@)
    } else {
        None
    }
    &&& views(m.compile_units@) == if include_debug_info {
        seq![module_name(raw, i) + ".c"@]
    } else {
        Seq::empty()
    }
    &&& m.num_symbols == raw.num_symbols
    &&& m.slide == Some((0x1000 + i * 0x100) as u64)
    &&& m.version == raw.version
}

/// The module at the last index of `mods` is listed: the engine gave it,
/// and its name contains the filter where one is given.
pub open spec fn module_listed(raw: Option<RawModule>, i: nat, filter: Option<Seq<char>>) -> bool {
    &&& raw is Some
    &&& match filter {
        Some(f) => has_substr(module_name(raw->0, i), f),
        None => true,
    }
}

/// The indices of the listed modules of `mods`, in order.
pub open spec fn listed_module_indices(mods: Seq<Option<RawModule>>, filter: Option<Seq<char>>) -> Seq<
    nat,
>
    decreases mods.len(),
{
    if mods.len() == 0 {
        Seq::empty()
    } else {
        let before = listed_module_indices(mods.drop_last(), filter);
        if module_listed(mods.last(), (mods.len() - 1) as nat, filter) {
            before.push((mods.len() - 1) as nat)
        } else {
            before
        }
    }
}

fn module_info_of(raw: &RawModule, i: usize, name: String, include_debug_info: bool) -> (m: ModuleInfo)
    requires
        i <= u32::MAX,
        name@ == module_name(*raw, i as nat),
    ensures
        is_module_info(m, *raw, i as nat, include_debug_info),
{
    let mut compile_units: Vec<String> = Vec::new();
    if include_debug_info {
        let mut unit = name.clone();
        push_str(&mut unit, ".c");
        compile_units.push(unit);
        assert(views(compile_units@) =~= seq![module_name(*raw, i as nat) + ".c"@]);
    } else {
        assert(views(compile_units@) =~= Seq::<Seq<char>>::empty());
    }
    let architecture = match &raw.triple {
        Some(t) => triple_architecture(t.as_str()),
        None => triple_architecture("unknown"),
    };
    let index = i as u64;
    ModuleInfo {
        name,
        file_path: text_or_unknown(&raw.file_path),
        uuid: text_or_unknown(&raw.uuid),
        architecture,
        load_address: 0x1_0000_0000 + index * 0x1000_0000,
        file_size: raw.file_size,
        is_main_executable: i == 0,
        has_debug_symbols: raw.num_symbols > 0,
        symbol_vendor: if raw.num_symbols > 0 {
            Some("DWARF".to_owned())
        } else {
            None
        },
        compile_units,
        num_symbols: raw.num_symbols,
        slide: Some(0x1000 + index * 0x100),
        version: copy_opt(&raw.version),
    }
}

impl LldbManager {
    /// The modules of the target that the engine could give (`modules`, by
    /// index), those whose name contains `filter_name` where it is given.
    pub fn list_modules(
        &self,
        filter_name: Option<&str>,
        include_debug_info: bool,
        modules: &Vec<Option<RawModule>>,
    ) -> (r: Result<Vec<ModuleInfo>, IncodeError>)
        requires
            modules@.len() <= u32::MAX,
        ensures
            !self.target_selected() ==> fails_op(r, "No active target for module listing"@),
            self.target_selected() ==> (r matches Ok(out) && {
                let idx = listed_module_indices(modules@, str_opt(filter_name));
                &&& out@.len() == idx.len()
                &&& forall|k: int|
                    0 <= k < out@.len() ==> idx[k] < modules@.len() && is_module_info(
                        #[trigger] out@[k],
                        modules@[idx[k] as int]->0,
                        idx[k],
                        include_debug_info,
                    )
            }),
    {
        if !self.has_target {
            return Err(IncodeError::lldb_op("No active target for module listing"));
        }
        let mut out: Vec<ModuleInfo> = Vec::new();
        let mut i: usize = 0;
        let ghost mut idx: Seq<nat> = Seq::empty();
        assert(modules@.take(0) =~= Seq::<Option<RawModule>>::empty());
        while i < modules.len()
            invariant
                i <= modules@.len() <= u32::MAX,
                idx == listed_module_indices(modules@.take(i as int), str_opt(filter_name)),
                out@.len() == idx.len(),
                forall|k: int| 0 <= k < idx.len() ==> #[trigger] idx[k] < i,
                forall|k: int|
                    0 <= k < out@.len() ==> is_module_info(
                        #[trigger] out@[k],
                        modules@[idx[k] as int]->0,
                        idx[k],
                        include_debug_info,
                    ),
            decreases modules@.len() - i,
        {
            assert(modules@.take(i + 1).drop_last() =~= modules@.take(i as int));
            assert(modules@.take(i + 1).last() == modules@[i as int]);
            match &modules[i] {
                Some(raw) => {
                    let name = match &raw.name {
                        Some(n) => n.clone(),
                        None => {
                            let mut n = String::new();
                            push_str(&mut n, "module_");
                            push_dec(&mut n, i as u64);
                            n
                        },
                    };
                    let keep = match filter_name {
                        Some(f) => str_contains(name.as_str(), f),
                        None => true,
                    };
                    if keep {
                        let m = module_info_of(raw, i, name, include_debug_info);
                        let ghost old_out = out@;
                        out.push(m);
                        proof {
                            idx = idx.push(i as nat);
                            assert forall|k: int| 0 <= k < out@.len() implies is_module_info(
                                #[trigger] out@[k],
                                modules@[idx[k] as int]->0,
                                idx[k],
                                include_debug_info,
                            ) by {
                                if k < old_out.len() {
                                    assert(out@[k] == old_out[k]);
                                }
                            }
                        }
                    }
                },
                None => {},
            }
            i = i + 1;
        }
        assert(modules@.take(modules@.len() as int) =~= modules@);
        Ok(out)
    }
}

// ---------------------------------------------------------------------------
// Platform
// ---------------------------------------------------------------------------

/// The target's platform as the engine reported it; a part the engine
/// could not give is missing, and so is a working directory the engine
/// gave as an empty path.
#[derive(Debug)]
pub struct RawPlatform {
    pub name: Option<String>,
    pub os_description: Option<String>,
    pub hostname: Option<String>,
    pub working_directory: Option<String>,
}

/// The pieces of the target triple `arch-vendor-os`, read from
/// `unknown-unknown-unknown` where the engine gave none.
pub open spec fn triple_parts(triple: Option<String>) -> Seq<Seq<char>> {
    split_char(
        match triple {
            Some(t) => t@,
            None => "unknown-unknown-unknown"@,
        },
        '-',
    )
}

/// The second word of an OS description, `unknown` without one.
pub open spec fn os_version_number(version: Seq<char>) -> Seq<char> {
    piece_or(words(version), 1, "unknown"@)
}

/// `p` describes the platform the engine reported in `raw` for a target
/// of triple `triple`; `current_dir` stands in for a working directory the
/// engine did not give.
pub open spec fn is_platform_info(
    p: PlatformInfo,
    raw: RawPlatform,
    triple: Option<String>,
    current_dir: Seq<char>,
) -> bool {
    let name = or_unknown(raw.name);
    let version = or_unknown(raw.os_description);
    let parts = triple_parts(triple);
    let architecture = parts[0];
    let vendor = piece_or(parts, 1, "unknown"@);
    let environment = piece_or(parts, 2, "unknown"@);
    let is_simulator = has_substr(name, "simulator"@) || has_substr(environment, "simulator"@);
    &&& p.name@ == name
    &&& p.version@ == version
    &&& p.architecture@ == architecture
    &&& p.vendor@ == vendor
    &&& p.environment@ == environment
    &&& p.hostname == raw.hostname
    &&& p.working_directory@ == match raw.working_directory {
        Some(w) => w@,
        None => current_dir,
    }
    &&& p.is_simulator == is_simulator
    &&& p.is_remote == has_substr(name, "remote"@)
    &&& p.supports_jit == (!has_substr(name, "ios"@) || is_simulator)
    &&& views(p.supported_architectures@) == if vendor == "apple"@ {
        seq!["x86_64"@, "arm64"@]
    } else if vendor == "pc"@ {
        seq!["x86_64"@, "i386"@]
    } else {
        seq![architecture]
    }
    &&& if has_substr(version, "macOS"@) {
        opt_view(p.sdk_version) == Some(os_version_number(version)) && opt_view(
            p.deployment_target,
        ) == Some("13.0"@)
    } else if has_substr(version, "iOS"@) {
        opt_view(p.sdk_version) == Some(os_version_number(version)) && opt_view(
            p.deployment_target,
        ) == Some("15.0"@)
    } else {
        p.sdk_version is None && p.deployment_target is None
    }
}

fn two_names(a: &str, b: &str) -> (r: Vec<String>)
    ensures
        views(r@) == seq![a@, b@],
{
    let mut r: Vec<String> = Vec::new();
    r.push(a.to_owned());
    r.push(b.to_owned());
    assert(views(r@) =~= seq![a@, b@]);
    r
}

impl LldbManager {
    /// What is known of the target's platform (`platform`, missing where
    /// the engine gave none) and its triple; `current_dir` is the working
    /// directory of this program, used where the platform gives none.
    pub fn get_platform_info(
        &self,
        platform: Option<RawPlatform>,
        triple: Option<String>,
        current_dir: String,
    ) -> (r: Result<PlatformInfo, IncodeError>)
        ensures
            !self.target_selected() ==> fails_op(r, "No active target for platform info"@),
            self.target_selected() && platform is None ==> fails_op(
                r,
                "Failed to get platform from target"@,
            ),
            self.target_selected() && platform is Some ==> (r matches Ok(p) && is_platform_info(
                p,
                platform->0,
                triple,
                current_dir@,
            )),
    {
        if !self.has_target {
            return Err(IncodeError::lldb_op("No active target for platform info"));
        }
        let raw = match platform {
            Some(p) => p,
            None => {
                return Err(IncodeError::lldb_op("Failed to get platform from target"));
            },
        };
        let name = text_or_unknown(&raw.name);
        let version = text_or_unknown(&raw.os_description);
        let triple_text = match &triple {
            Some(t) => t.clone(),
            None => "unknown-unknown-unknown".to_owned(),
        };
        let parts = split_on(triple_text.as_str(), '-');
        proof {
            lemma_split_nonempty(triple_text@, sep_of(Some('-')));
        }
        let architecture = piece_at(&parts, 0, "unknown");
        let vendor = piece_at(&parts, 1, "unknown");
        let environment = piece_at(&parts, 2, "unknown");
        let working_directory = match &raw.working_directory {
            Some(w) => w.clone(),
            None => current_dir,
        };
        let is_simulator = str_contains(name.as_str(), "simulator") || str_contains(
            environment.as_str(),
            "simulator",
        );
        let is_remote = str_contains(name.as_str(), "remote");
        let supports_jit = !str_contains(name.as_str(), "ios") || is_simulator;
        let supported_architectures = if str_eq(vendor.as_str(), "apple") {
            two_names("x86_64", "arm64")
        } else if str_eq(vendor.as_str(), "pc") {
            two_names("x86_64", "i386")
        } else {
            let mut v: Vec<String> = Vec::new();
            v.push(architecture.clone());
            assert(views(v@) =~= seq![architecture@]);
            v
        };
        let (sdk_version, deployment_target) = if str_contains(version.as_str(), "macOS") {
            let ws = split_words(version.as_str());
            (Some(piece_at(&ws, 1, "unknown")), Some("13.0".to_owned()))
        } else if str_contains(version.as_str(), "iOS") {
            let ws = split_words(version.as_str());
            (Some(piece_at(&ws, 1, "unknown")), Some("15.0".to_owned()))
        } else {
            (None, None)
        };
        Ok(
            PlatformInfo {
                name,
                version,
                architecture,
                vendor,
                environment,
                sdk_version,
                deployment_target,
                is_simulator,
                is_remote,
                supports_jit,
                working_directory,
                supported_architectures,
                hostname: raw.hostname,
            },
        )
    }
}

// ---------------------------------------------------------------------------
// Debugger version
// ---------------------------------------------------------------------------

/// The build number in a version text: what follows its first hyphen.
pub open spec fn build_number_of(version: Seq<char>) -> Option<Seq<char>> {
    match index_of(version, '-') {
        Some(p) => Some(version.subrange(p + 1int, version.len() as int)),
        None => None,
    }
}

/// The API version of a build number: its first two dot-separated parts
/// and `.0`, or `unknown` where there are not two.
pub open spec fn api_version_of(build_number: Option<Seq<char>>) -> Seq<char> {
    match build_number {
        Some(bn) => {
            let parts = split_char(bn, '.');
            if parts.len() >= 2 {
                parts[0] + "."@ + parts[1] + ".0"@
            } else {
                "unknown"@
            }
        },
        None => "unknown"@,
    }
}

/// `v` describes the debugger of version text `version` (`unknown` where
/// the engine gave none) and build configuration `config`, built for the
/// operating system `os`. Build details are given only where they were
/// asked for; the build date and compiler read `unknown`.
pub open spec fn is_version_info(
    v: LldbVersionInfo,
    include_build_info: bool,
    version: Option<String>,
    config: Option<String>,
    os: Seq<char>,
) -> bool {
    let text = or_unknown(version);
    let build_number = if include_build_info {
        build_number_of(text)
    } else {
        None
    };
    &&& v.version@ == text
    &&& opt_view(v.build_number) == build_number
    &&& v.api_version@ == api_version_of(build_number)
    &&& opt_view(v.build_date) == if include_build_info {
        Some("unknown"@)
    } else {
        None
    }
    &&& v.build_configuration == if include_build_info {
        config
    } else {
        None
    }
    &&& opt_view(v.compiler) == if include_build_info {
        Some("unknown"@)
    } else {
        None
    }
    &&& v.platform@ == os
}

fn build_number_in(version: &str) -> (r: Option<String>)
    ensures
        opt_view(r) == build_number_of(version@),
{
    let v = chars_of(version);
    let n = v.len();
    match find_char(&v, '-') {
        Some(p) => Some(string_of_range(&v, p + 1, n)),
        None => None,
    }
}

fn api_version_in(build_number: &Option<String>) -> (r: String)
    ensures
        r@ == api_version_of(opt_view(*build_number)),
{
    match build_number {
        Some(bn) => {
            let parts = split_on(bn.as_str(), '.');
            if parts.len() >= 2 {
                let mut r = parts[0].clone();
                push_str(&mut r, ".");
                push_str(&mut r, parts[1].as_str());
                push_str(&mut r, ".0");
                r
            } else {
                "unknown".to_owned()
            }
        },
        None => "unknown".to_owned(),
    }
}

impl LldbManager {
    /// The debugger's version, from the version text and build
    /// configuration the engine gave (each missing where it gave none) and
    /// the operating system this program was built for.
    pub fn get_lldb_version(
        &self,
        include_build_info: bool,
        version: Option<String>,
        build_configuration: Option<String>,
        os: &str,
    ) -> (r: Result<LldbVersionInfo, IncodeError>)
        ensures
            r matches Ok(v) && is_version_info(
                v,
                include_build_info,
                version,
                build_configuration,
                os@,
            ),
    {
        let text = text_or_unknown(&version);
        let build_number = if include_build_info {
            build_number_in(text.as_str())
        } else {
            None
        };
        let api_version = api_version_in(&build_number);
        Ok(
            LldbVersionInfo {
                version: text,
                build_number,
                api_version,
                build_date: if include_build_info {
                    Some("unknown".to_owned())
                } else {
                    None
                },
                build_configuration: if include_build_info {
                    build_configuration
                } else {
                    None
                },
                compiler: if include_build_info {
                    Some("unknown".to_owned())
                } else {
                    None
                },
                platform: os.to_owned(),
            },
        )
    }
}

// ---------------------------------------------------------------------------
// Target
// ---------------------------------------------------------------------------

/// The executable format that a platform name points to.
pub open spec fn executable_format_of(platform: Seq<char>) -> Seq<char> {
    if has_substr(platform, "darwin"@) || has_substr(platform, "macosx"@) || has_substr(
        platform,
        "ios"@,
    ) {
        "Mach-O"@
    } else if has_substr(platform, "linux"@) || has_substr(platform, "freebsd"@) {
        "ELF"@
    } else if has_substr(platform, "windows"@) {
        "PE"@
    } else {
        "unknown"@
    }
}

/// The architectures, as target triples name them, whose byte order is
/// big unless the name ends in `le` or `el`: the PowerPC, MIPS, SPARC,
/// SystemZ, Motorola 68000 and Lanai families.
pub open spec fn big_endian_family(architecture: Seq<char>) -> bool {
    has_prefix(architecture, "powerpc"@) || has_prefix(architecture, "ppc"@) || has_prefix(
        architecture,
        "mips"@,
    ) || has_prefix(architecture, "sparc"@) || has_prefix(architecture, "s390"@) || has_prefix(
        architecture,
        "m68k"@,
    ) || has_prefix(architecture, "lanai"@)
}

/// Whether an architecture, as a target triple names it, stores numbers
/// most significant byte first: a name ending in `_be` or `eb` (such as
/// `aarch64_be`, `armeb`, `bpfeb`), or one of the big-endian families that
/// does not end in `le` or `el` (such as `powerpc64`, `mips`, `s390x`,
/// `sparcv9`).
pub open spec fn is_big_endian(architecture: Seq<char>) -> bool {
    has_suffix(architecture, "_be"@) || has_suffix(architecture, "eb"@) || (big_endian_family(
        architecture,
    ) && !has_suffix(architecture, "le"@) && !has_suffix(architecture, "el"@))
}

/// The byte order of an architecture: `big` for the big-endian ones, `little`
/// for all others (x86, x86_64, i386, arm, arm64, aarch64, riscv, wasm,
/// `powerpc64le`, `mipsel` and the like).
pub open spec fn endianness_of(architecture: Seq<char>) -> Seq<char> {
    if is_big_endian(architecture) {
        "big"@
    } else {
        "little"@
    }
}

/// The byte order of an architecture (see `endianness_of`).
pub fn byte_order_of(architecture: &str) -> (r: String)
    ensures
        r@ == endianness_of(architecture@),
{
    let a = architecture;
    let family = str_starts_with(a, "powerpc") || str_starts_with(a, "ppc") || str_starts_with(a, "mips")
        || str_starts_with(a, "sparc") || str_starts_with(a, "s390") || str_starts_with(a, "m68k")
        || str_starts_with(a, "lanai");
    let big = str_ends_with(a, "_be") || str_ends_with(a, "eb") || (family && !str_ends_with(a, "le")
        && !str_ends_with(a, "el"));
    if big {
        "big".to_owned()
    } else {
        "little".to_owned()
    }
}

/// `t` describes the target whose triple, platform name and executable
/// path the engine reported (each `unknown` where it gave none) and whose
/// file has size `file_size` and creation time `creation_time`. Debug
/// symbols, entry point, base address and position independence are
/// stated rather than read.
pub open spec fn is_target_info(
    t: TargetInfo,
    triple: Option<String>,
    platform_name: Option<String>,
    executable_path: Option<String>,
    file_size: u64,
    creation_time: Option<std::time::SystemTime>,
) -> bool {
    let architecture = split_char(or_unknown(triple), '-')[0];
    let platform = or_unknown(platform_name);
    &&& t.executable_path@ == or_unknown(executable_path)
    &&& t.architecture@ == architecture
    &&& t.platform@ == platform
    &&& t.executable_format@ == executable_format_of(platform)
    &&& t.has_debug_symbols
    &&& t.entry_point == Some(0x1_0000_0000u64)
    &&& t.base_address == Some(0x1_0000_0000u64)
    &&& t.file_size == file_size
    &&& t.creation_time == creation_time
    &&& t.is_pie
    &&& !t.is_stripped
    &&& t.endianness@ == endianness_of(architecture)
}

fn executable_format_for(platform: &str) -> (r: String)
    ensures
        r@ == executable_format_of(platform@),
{
    if str_contains(platform, "darwin") || str_contains(platform, "macosx") || str_contains(
        platform,
        "ios",
    ) {
        "Mach-O".to_owned()
    } else if str_contains(platform, "linux") || str_contains(platform, "freebsd") {
        "ELF".to_owned()
    } else if str_contains(platform, "windows") {
        "PE".to_owned()
    } else {
        "unknown".to_owned()
    }
}

impl LldbManager {
    /// What is known of the target, from its triple, platform name and
    /// executable path as the engine gave them (each missing where it gave
    /// none), and the size and creation time of the executable's file.
    pub fn get_target_info(
        &self,
        triple: Option<String>,
        platform_name: Option<String>,
        executable_path: Option<String>,
        file_size: u64,
        creation_time: Option<std::time::SystemTime>,
    ) -> (r: Result<TargetInfo, IncodeError>)
        ensures
            !self.target_selected() ==> fails_op(r, "No active target for target info"@),
            self.target_selected() ==> (r matches Ok(t) && is_target_info(
                t,
                triple,
                platform_name,
                executable_path,
                file_size,
                creation_time,
            )),
    {
        if !self.has_target {
            return Err(IncodeError::lldb_op("No active target for target info"));
        }
        let triple_text = text_or_unknown(&triple);
        let architecture = triple_architecture(triple_text.as_str());
        let platform = text_or_unknown(&platform_name);
        let executable_path = text_or_unknown(&executable_path);
        let executable_format = executable_format_for(platform.as_str());
        let endianness = byte_order_of(architecture.as_str());
        Ok(
            TargetInfo {
                executable_path,
                architecture,
                platform,
                executable_format,
                has_debug_symbols: true,
                entry_point: Some(0x1_0000_0000),
                base_address: Some(0x1_0000_0000),
                file_size,
                creation_time,
                is_pie: true,
                is_stripped: false,
                endianness,
            },
        )
    }
}

} // verus!
