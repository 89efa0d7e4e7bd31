//! Tools that list variables, evaluate expressions and describe single
//! variables.

use vstd::prelude::*;
use crate::error::IncodeError;
use crate::json::{
    arg_bool_or, arg_str, arg_str_or, arg_u64_or, as_boolean, as_text, as_uint, entry, is_text,
    is_text_array, jopt_str, jopt_u64, jstr, lookup, opt_view, text_array, Arguments, Json,
};
use crate::lldb_manager::{kept_variables, retain_variables, Variable, VariableInfo};
use crate::text::{
    dec_str, has_prefix, has_suffix, hex_addr, hex_address, parse_i64, parse_signed, push_dec,
    push_str, str_ends_with, str_eq, str_starts_with,
};
use crate::tools::stack_analysis::{
    is_formatted_result, unsafe_expression_patterns, EvaluateInFrameTool,
};
use crate::tools::{
    contains_any, error_response, failure, has_text, has_value, is_failure, is_json_object,
    json_entries, lowercase_of, nonempty_text, read_nonempty, reports_error, str_contains_any,
    to_lowercase, ToolResponse,
};

verus! {

broadcast use vstd::string::group_string_axioms;

/// How many of `vars` have the scope `scope`.
pub open spec fn scope_count(vars: Seq<Variable>, scope: Seq<char>) -> nat {
    vars.filter(|v: Variable| v.scope@ == scope).len()
}

/// How many of `vars` are arguments.
pub open spec fn parameter_count(vars: Seq<Variable>) -> nat {
    vars.filter(|v: Variable| v.is_argument).len()
}

fn count_scope(vars: &Vec<Variable>, scope: &str) -> (r: usize)
    ensures
        r == scope_count(vars@, scope@),
{
    let ghost p = |v: Variable| v.scope@ == scope@;
    let mut n: usize = 0;
    let mut i: usize = 0;
    assert(vars@.take(0) =~= Seq::<Variable>::empty());
    proof {
        reveal(Seq::filter);
    }
    while i < vars.len()
        invariant
            i <= vars@.len(),
            p == (|v: Variable| v.scope@ == scope@),
            n == vars@.take(i as int).filter(p).len(),
            n <= i,
        decreases vars@.len() - i,
    {
        proof {
            reveal(Seq::filter);
        }
        assert(vars@.take(i + 1).drop_last() =~= vars@.take(i as int));
        assert(vars@.take(i + 1).last() == vars@[i as int]);
        if str_eq(vars[i].scope.as_str(), scope) {
            n = n + 1;
        }
        i = i + 1;
    }
    assert(vars@.take(i as int) =~= vars@);
    n
}

fn count_parameters(vars: &Vec<Variable>) -> (r: usize)
    ensures
        r == parameter_count(vars@),
{
    let ghost p = |v: Variable| v.is_argument;
    let mut n: usize = 0;
    let mut i: usize = 0;
    assert(vars@.take(0) =~= Seq::<Variable>::empty());
    proof {
        reveal(Seq::filter);
    }
    while i < vars.len()
        invariant
            i <= vars@.len(),
            p == (|v: Variable| v.is_argument),
            n == vars@.take(i as int).filter(p).len(),
            n <= i,
        decreases vars@.len() - i,
    {
        proof {
            reveal(Seq::filter);
        }
        assert(vars@.take(i + 1).drop_last() =~= vars@.take(i as int));
        assert(vars@.take(i + 1).last() == vars@[i as int]);
        if vars[i].is_argument {
            n = n + 1;
        }
        i = i + 1;
    }
    assert(vars@.take(i as int) =~= vars@);
    n
}

// ---------------------------------------------------------------------------
// get_variables
// ---------------------------------------------------------------------------

/// `v` describes the variable `var` in full: name, value, scope, whether
/// it is an argument, its category (`parameter` for an argument, else its
/// scope) and, where asked for, its type.
pub open spec fn is_scoped_variable(v: Json, var: Variable, include_types: bool) -> bool {
    v matches Json::Object(es) && {
        let es = es@;
        &&& es.len() == if include_types {
            6int
        } else {
            5int
        }
        &&& has_text(es, 0, "name"@, var.name@)
        &&& has_text(es, 1, "value"@, var.value@)
        &&& has_text(es, 2, "scope"@, var.scope@)
        &&& has_value(es, 3, "is_argument"@, Json::Bool(var.is_argument))
        &&& has_text(
            es,
            4,
            "category"@,
            if var.is_argument {
                "parameter"@
            } else {
                var.scope@
            },
        )
        &&& include_types ==> has_text(es, 5, "type"@, var.var_type@)
    }
}

/// The line that describes `var` in a line format.
pub open spec fn scoped_line(var: Variable, format: Seq<char>, include_types: bool) -> Seq<char> {
    if format == "compact"@ {
        if include_types {
            var.name@ + ": "@ + var.var_type@ + " = "@ + var.value@ + " ("@ + var.scope@ + ")"@
        } else {
            var.name@ + " = "@ + var.value@ + " ("@ + var.scope@ + ")"@
        }
    } else if format == "names_only"@ {
        var.name@
    } else {
        var.name@ + ": "@ + var.var_type@
    }
}

/// `j` describes `vars` in the format `format`.
pub open spec fn is_scoped_variables(j: Json, vars: Seq<Variable>, format: Seq<char>, include_types: bool) -> bool {
    j matches Json::Array(items) && items@.len() == vars.len() && forall|i: int|
        0 <= i < vars.len() ==> if crate::tools::stack_analysis::is_line_format(format) {
            is_text(#[trigger] items@[i], scoped_line(vars[i], format, include_types))
        } else {
            is_scoped_variable(items@[i], vars[i], include_types)
        }
}

fn scoped_line_of(var: &Variable, format: &str, include_types: bool) -> (r: String)
    ensures
        r@ == scoped_line(*var, format@, include_types),
{
    let mut s = var.name.clone();
    if str_eq(format, "compact") {
        if include_types {
            push_str(&mut s, ": ");
            push_str(&mut s, var.var_type.as_str());
        }
        push_str(&mut s, " = ");
        push_str(&mut s, var.value.as_str());
        push_str(&mut s, " (");
        push_str(&mut s, var.scope.as_str());
        push_str(&mut s, ")");
    } else if str_eq(format, "names_only") {
    } else {
        push_str(&mut s, ": ");
        push_str(&mut s, var.var_type.as_str());
    }
    s
}

fn scoped_variable(var: &Variable, include_types: bool) -> (v: Json)
    ensures
        is_scoped_variable(v, *var, include_types),
{
    let mut es: Vec<(String, Json)> = Vec::new();
    es.push(entry("name", Json::Str(var.name.clone())));
    es.push(entry("value", Json::Str(var.value.clone())));
    es.push(entry("scope", Json::Str(var.scope.clone())));
    es.push(entry("is_argument", Json::Bool(var.is_argument)));
    es.push(
        entry(
            "category",
            if var.is_argument {
                jstr("parameter")
            } else {
                Json::Str(var.scope.clone())
            },
        ),
    );
    if include_types {
        es.push(entry("type", Json::Str(var.var_type.clone())));
    }
    Json::Object(es)
}

/// What to list.
#[derive(Debug)]
pub struct VariablesRequest {
    pub scope: String,
    pub filter: Option<String>,
    pub include_types: bool,
    pub format: String,
}

/// Lists the variables in scope.
#[derive(Debug)]
pub struct GetVariablesTool;

impl GetVariablesTool {
    pub fn name(&self) -> (r: &'static str)
        ensures
            r@ == "get_variables"@,
    {
        "get_variables"
    }

    pub fn description(&self) -> (r: &'static str)
        ensures
            r@ == "Get variables in current scope with types and values (local, global, static)"@,
    {
        "Get variables in current scope with types and values (local, global, static)"
    }

    /// The scope (`scope`, `all` by default), the name filter (`filter`,
    /// where it is not empty), whether types are shown (`include_types`,
    /// true by default) and the format (`format`, `detailed` by default).
    pub fn request(&self, args: &Arguments) -> (r: VariablesRequest)
        ensures
            r.scope@ == match as_text(lookup(args@, "scope"@)) {
                Some(t) => t,
                None => "all"@,
            },
            opt_view(r.filter) == nonempty_text(args@, "filter"@),
            r.include_types == match as_boolean(lookup(args@, "include_types"@)) {
                Some(b) => b,
                None => true,
            },
            r.format@ == match as_text(lookup(args@, "format"@)) {
                Some(t) => t,
                None => "detailed"@,
            },
    {
        VariablesRequest {
            scope: arg_str_or(args, "scope", "all"),
            filter: read_nonempty(args, "filter"),
            include_types: arg_bool_or(args, "include_types", true),
            format: arg_str_or(args, "format", "detailed"),
        }
    }

    /// The scope the variables are asked of: none for `all`.
    pub fn scope_filter(&self, q: &VariablesRequest) -> (r: Option<String>)
        ensures
            opt_view(r) == if q.scope@ == "all"@ {
                None
            } else {
                Some(q.scope@)
            },
    {
        if str_eq(q.scope.as_str(), "all") {
            None
        } else {
            Some(q.scope.clone())
        }
    }

    /// Describes `variables` in the format `format`.
    pub fn format_variables(variables: &Vec<Variable>, format: &str, include_types: bool) -> (r: Json)
        ensures
            is_scoped_variables(r, variables@, format@, include_types),
    {
        let line_format = str_eq(format, "compact") || str_eq(format, "names_only") || str_eq(
            format,
            "types_only",
        );
        let mut items: Vec<Json> = Vec::new();
        let mut i: usize = 0;
        while i < variables.len()
            invariant
                i <= variables@.len(),
                line_format == crate::tools::stack_analysis::is_line_format(format@),
                items@.len() == i,
                forall|k: int|
                    0 <= k < i ==> if crate::tools::stack_analysis::is_line_format(format@) {
                        is_text(
                            #[trigger] items@[k],
                            scoped_line(variables@[k], format@, include_types),
                        )
                    } else {
                        is_scoped_variable(items@[k], variables@[k], include_types)
                    },
            decreases variables@.len() - i,
        {
            if line_format {
                items.push(Json::Str(scoped_line_of(&variables[i], format, include_types)));
            } else {
                items.push(scoped_variable(&variables[i], include_types));
            }
            i = i + 1;
        }
        Json::Array(items)
    }

    /// The answer: the variables, described in the format, with how many
    /// there are of each kind.
    pub fn respond(&self, q: &VariablesRequest, outcome: Result<Vec<Variable>, IncodeError>) -> (r:
        ToolResponse)
        ensures
            match outcome {
                Ok(vars) => {
                    let es = json_entries(r);
                    &&& is_json_object(r, 11)
                    &&& has_value(es, 0, "total_variables"@, Json::UInt(vars@.len() as u64))
                    &&& has_value(
                        es,
                        1,
                        "local_variables"@,
                        Json::UInt(scope_count(vars@, "local"@) as u64),
                    )
                    &&& has_value(
                        es,
                        2,
                        "global_variables"@,
                        Json::UInt(scope_count(vars@, "global"@) as u64),
                    )
                    &&& has_value(es, 3, "parameters"@, Json::UInt(parameter_count(vars@) as u64))
                    &&& has_value(
                        es,
                        4,
                        "static_variables"@,
                        Json::UInt(scope_count(vars@, "static"@) as u64),
                    )
                    &&& has_text(es, 5, "scope_filter"@, q.scope@)
                    &&& has_text(
                        es,
                        6,
                        "name_filter"@,
                        match q.filter {
                            Some(f) => f@,
                            None => Seq::empty(),
                        },
                    )
                    &&& has_value(es, 7, "include_types"@, Json::Bool(q.include_types))
                    &&& has_text(es, 8, "format"@, q.format@)
                    &&& es[9].0@ == "variables"@ && is_scoped_variables(
                        es[9].1,
                        vars@,
                        q.format@,
                        q.include_types,
                    )
                    &&& has_text(
                        es,
                        10,
                        "message"@,
                        "Found "@ + dec_str(vars@.len()) + " variables in scope: "@ + q.scope@,
                    )
                },
                Err(e) => reports_error(r, e),
            },
    {
        match outcome {
            Ok(vars) => {
                let n = vars.len();
                let locals = count_scope(&vars, "local");
                let globals = count_scope(&vars, "global");
                let params = count_parameters(&vars);
                let statics = count_scope(&vars, "static");
                let formatted = Self::format_variables(&vars, q.format.as_str(), q.include_types);
                let name_filter = match &q.filter {
                    Some(f) => f.clone(),
                    None => {
                        proof {
                            reveal_strlit("");
                            assert(""@ =~= Seq::<char>::empty());
                        }
                        "".to_owned()
                    },
                };
                let mut msg = String::new();
                push_str(&mut msg, "Found ");
                push_dec(&mut msg, n as u64);
                push_str(&mut msg, " variables in scope: ");
                push_str(&mut msg, q.scope.as_str());
                let mut es: Vec<(String, Json)> = Vec::new();
                es.push(entry("total_variables", Json::UInt(n as u64)));
                es.push(entry("local_variables", Json::UInt(locals as u64)));
                es.push(entry("global_variables", Json::UInt(globals as u64)));
                es.push(entry("parameters", Json::UInt(params as u64)));
                es.push(entry("static_variables", Json::UInt(statics as u64)));
                es.push(entry("scope_filter", Json::Str(q.scope.clone())));
                es.push(entry("name_filter", Json::Str(name_filter)));
                es.push(entry("include_types", Json::Bool(q.include_types)));
                es.push(entry("format", Json::Str(q.format.clone())));
                es.push(entry("variables", formatted));
                es.push(entry("message", Json::Str(msg)));
                ToolResponse::Json(Json::Object(es))
            },
            Err(e) => error_response(&e),
        }
    }
}

// ---------------------------------------------------------------------------
// get_global_variables
// ---------------------------------------------------------------------------

/// The variables of `vars` whose scope is not `static`, in their order.
pub open spec fn non_static(vars: Seq<Variable>) -> Seq<Variable> {
    vars.filter(|v: Variable| v.scope@ != "static"@)
}

/// The global variables that are reported: those whose name contains the
/// pattern, where one is given, and, unless static ones are included,
/// those whose scope is not `static`.
pub open spec fn selected_globals(
    vars: Seq<Variable>,
    pattern: Option<Seq<char>>,
    include_static: bool,
) -> Seq<Variable> {
    let named = match pattern {
        Some(p) => kept_variables(vars, None, Some(p)),
        None => vars,
    };
    if include_static {
        named
    } else {
        non_static(named)
    }
}

/// The values of the variables of `vars` that are pointers (their value
/// starts with `0x`), in their order.
pub open spec fn pointer_values(vars: Seq<Variable>) -> Seq<Seq<char>> {
    vars.filter(|v: Variable| has_prefix(v.value@, "0x"@)).map_values(|v: Variable| v.value@)
}

/// The line that describes a global variable in a line format.
pub open spec fn global_line(var: Variable, format: Seq<char>) -> Seq<char> {
    if format == "compact"@ {
        var.name@ + ": "@ + var.var_type@ + " = "@ + var.value@ + " ["@ + var.scope@ + "]"@
    } else {
        var.name@
    }
}

/// `v` describes the global variable `var` in full.
pub open spec fn is_global_detail(v: Json, var: Variable) -> bool {
    v matches Json::Object(es) && {
        let es = es@;
        &&& es.len() == 7
        &&& has_text(es, 0, "name"@, var.name@)
        &&& has_text(es, 1, "type"@, var.var_type@)
        &&& has_text(es, 2, "value"@, var.value@)
        &&& has_text(es, 3, "scope"@, var.scope@)
        &&& has_value(es, 4, "is_pointer"@, Json::Bool(has_prefix(var.value@, "0x"@)))
        &&& has_value(
            es,
            5,
            "is_string"@,
            Json::Bool(has_prefix(var.value@, "\""@) && has_suffix(var.value@, "\""@)),
        )
        &&& has_text(
            es,
            6,
            "storage_class"@,
            if var.scope@ == "static"@ {
                "static"@
            } else {
                "global"@
            },
        )
    }
}

/// `j` lists the global variables `vars` in the format `format`:
/// `addresses_only` gives the pointer values, `compact` and `names_only`
/// one line each, any other format a full description of each.
pub open spec fn is_global_listing(j: Json, vars: Seq<Variable>, format: Seq<char>) -> bool {
    if format == "addresses_only"@ {
        is_text_array(j, pointer_values(vars))
    } else if format == "compact"@ || format == "names_only"@ {
        is_text_array(j, vars.map_values(|v: Variable| global_line(v, format)))
    } else {
        j matches Json::Array(items) && items@.len() == vars.len() && forall|i: int|
            0 <= i < vars.len() ==> is_global_detail(#[trigger] items@[i], vars[i])
    }
}

fn drop_static(vars: Vec<Variable>) -> (kept: Vec<Variable>)
    ensures
        kept@ == non_static(vars@),
{
    let ghost orig = vars@;
    let ghost pred = |v: Variable| v.scope@ != "static"@;
    let mut rest = vars;
    let mut kept: Vec<Variable> = Vec::new();
    let ghost mut k: int = 0;
    assert(orig.take(0) =~= Seq::<Variable>::empty());
    proof {
        reveal(Seq::filter);
    }
    while rest.len() > 0
        invariant
            0 <= k <= orig.len(),
            rest@ =~= orig.subrange(k, orig.len() as int),
            kept@ == orig.take(k).filter(pred),
            pred == (|v: Variable| v.scope@ != "static"@),
        decreases rest.len(),
    {
        let v = rest.remove(0);
        proof {
            assert(orig.take(k + 1).drop_last() =~= orig.take(k));
            assert(orig.take(k + 1).last() == v);
            reveal(Seq::filter);
        }
        if !str_eq(v.scope.as_str(), "static") {
            kept.push(v);
        }
        proof {
            k = k + 1;
        }
    }
    assert(orig.take(k) =~= orig);
    kept
}

fn pointer_values_of(vars: &Vec<Variable>) -> (r: Vec<String>)
    ensures
        r@.map_values(|s: String| s@) == pointer_values(vars@),
{
    let ghost p = |v: Variable| has_prefix(v.value@, "0x"@);
    let ghost f = |v: Variable| v.value@;
    let mut out: Vec<String> = Vec::new();
    let mut i: usize = 0;
    assert(vars@.take(0) =~= Seq::<Variable>::empty());
    proof {
        reveal(Seq::filter);
    }
    assert(out@.map_values(|s: String| s@) =~= vars@.take(0).filter(p).map_values(f));
    while i < vars.len()
        invariant
            i <= vars@.len(),
            p == (|v: Variable| has_prefix(v.value@, "0x"@)),
            f == (|v: Variable| v.value@),
            out@.map_values(|s: String| s@) == vars@.take(i as int).filter(p).map_values(f),
        decreases vars@.len() - i,
    {
        proof {
            reveal(Seq::filter);
        }
        assert(vars@.take(i + 1).drop_last() =~= vars@.take(i as int));
        assert(vars@.take(i + 1).last() == vars@[i as int]);
        let ghost before = out@;
        if str_starts_with(vars[i].value.as_str(), "0x") {
            out.push(vars[i].value.clone());
            assert(out@.map_values(|s: String| s@) =~= before.map_values(|s: String| s@).push(
                vars@[i as int].value@,
            ));
        }
        i = i + 1;
    }
    assert(vars@.take(i as int) =~= vars@);
    out
}

fn global_line_of(var: &Variable, format: &str) -> (r: String)
    ensures
        r@ == global_line(*var, format@),
{
    let mut s = var.name.clone();
    if str_eq(format, "compact") {
        push_str(&mut s, ": ");
        push_str(&mut s, var.var_type.as_str());
        push_str(&mut s, " = ");
        push_str(&mut s, var.value.as_str());
        push_str(&mut s, " [");
        push_str(&mut s, var.scope.as_str());
        push_str(&mut s, "]");
    }
    s
}

fn global_detail(var: &Variable) -> (v: Json)
    ensures
        is_global_detail(v, *var),
{
    let value = var.value.as_str();
    let mut es: Vec<(String, Json)> = Vec::new();
    es.push(entry("name", Json::Str(var.name.clone())));
    es.push(entry("type", Json::Str(var.var_type.clone())));
    es.push(entry("value", Json::Str(var.value.clone())));
    es.push(entry("scope", Json::Str(var.scope.clone())));
    es.push(entry("is_pointer", Json::Bool(str_starts_with(value, "0x"))));
    es.push(
        entry(
            "is_string",
            Json::Bool(str_starts_with(value, "\"") && str_ends_with(value, "\"")),
        ),
    );
    es.push(
        entry(
            "storage_class",
            if str_eq(var.scope.as_str(), "static") {
                jstr("static")
            } else {
                jstr("global")
            },
        ),
    );
    Json::Object(es)
}

/// What to list of the global variables.
#[derive(Debug)]
pub struct GlobalsRequest {
    pub module_filter: Option<String>,
    pub name_pattern: Option<String>,
    pub include_static: bool,
    pub format: String,
}

/// Lists the global and static variables of the target.
#[derive(Debug)]
pub struct GetGlobalVariablesTool;

impl GetGlobalVariablesTool {
    pub fn name(&self) -> (r: &'static str)
        ensures
            r@ == "get_global_variables"@,
    {
        "get_global_variables"
    }

    pub fn description(&self) -> (r: &'static str)
        ensures
            r@ == "Get global and static variables with their current values"@,
    {
        "Get global and static variables with their current values"
    }

    /// The module (`module_filter`) and name pattern (`name_pattern`),
    /// each where it is not empty, whether static variables are listed
    /// (`include_static`, true by default) and the format (`format`,
    /// `detailed` by default).
    pub fn request(&self, args: &Arguments) -> (r: GlobalsRequest)
        ensures
            opt_view(r.module_filter) == nonempty_text(args@, "module_filter"@),
            opt_view(r.name_pattern) == nonempty_text(args@, "name_pattern"@),
            r.include_static == match as_boolean(lookup(args@, "include_static"@)) {
                Some(b) => b,
                None => true,
            },
            r.format@ == match as_text(lookup(args@, "format"@)) {
                Some(t) => t,
                None => "detailed"@,
            },
    {
        GlobalsRequest {
            module_filter: read_nonempty(args, "module_filter"),
            name_pattern: read_nonempty(args, "name_pattern"),
            include_static: arg_bool_or(args, "include_static", true),
            format: arg_str_or(args, "format", "detailed"),
        }
    }

    /// The variables of `vars` that `q` asks for.
    pub fn select(&self, q: &GlobalsRequest, vars: Vec<Variable>) -> (r: Vec<Variable>)
        ensures
            r@ == selected_globals(vars@, opt_view(q.name_pattern), q.include_static),
    {
        let named = match &q.name_pattern {
            Some(p) => retain_variables(vars, None, Some(p.as_str())),
            None => vars,
        };
        if q.include_static {
            named
        } else {
            drop_static(named)
        }
    }

    /// Lists `variables` in the format `format`.
    pub fn format_global_variables(variables: &Vec<Variable>, format: &str) -> (r: Json)
        ensures
            is_global_listing(r, variables@, format@),
    {
        if str_eq(format, "addresses_only") {
            let values = pointer_values_of(variables);
            return text_array(&values);
        }
        let line_format = str_eq(format, "compact") || str_eq(format, "names_only");
        if line_format {
            let mut lines: Vec<String> = Vec::new();
            let mut i: usize = 0;
            while i < variables.len()
                invariant
                    i <= variables@.len(),
                    lines@.len() == i,
                    forall|k: int|
                        0 <= k < i ==> (#[trigger] lines@[k])@ == global_line(
                            variables@[k],
                            format@,
                        ),
                decreases variables@.len() - i,
            {
                lines.push(global_line_of(&variables[i], format));
                i = i + 1;
            }
            let r = text_array(&lines);
            assert(lines@.map_values(|s: String| s@) =~= variables@.map_values(
                |v: Variable| global_line(v, format@),
            ));
            return r;
        }
        let mut items: Vec<Json> = Vec::new();
        let mut i: usize = 0;
        while i < variables.len()
            invariant
                i <= variables@.len(),
                items@.len() == i,
                forall|k: int| 0 <= k < i ==> is_global_detail(#[trigger] items@[k], variables@[k]),
            decreases variables@.len() - i,
        {
            items.push(global_detail(&variables[i]));
            i = i + 1;
        }
        Json::Array(items)
    }

    /// The answer: the selected variables, listed in the format, with how
    /// many are global and how many static.
    pub fn respond(&self, q: &GlobalsRequest, outcome: Result<Vec<Variable>, IncodeError>) -> (r:
        ToolResponse)
        ensures
            match outcome {
                Ok(vars) => {
                    let sel = selected_globals(vars@, opt_view(q.name_pattern), q.include_static);
                    let es = json_entries(r);
                    &&& is_json_object(r, 9)
                    &&& has_value(es, 0, "total_globals"@, Json::UInt(sel.len() as u64))
                    &&& has_value(
                        es,
                        1,
                        "global_variables"@,
                        Json::UInt(scope_count(sel, "global"@) as u64),
                    )
                    &&& has_value(
                        es,
                        2,
                        "static_variables"@,
                        Json::UInt(scope_count(sel, "static"@) as u64),
                    )
                    &&& has_text(
                        es,
                        3,
                        "module_filter"@,
                        match q.module_filter {
                            Some(m) => m@,
                            None => Seq::empty(),
                        },
                    )
                    &&& has_text(
                        es,
                        4,
                        "name_pattern"@,
                        match q.name_pattern {
                            Some(p) => p@,
                            None => Seq::empty(),
                        },
                    )
                    &&& has_value(es, 5, "include_static"@, Json::Bool(q.include_static))
                    &&& has_text(es, 6, "format"@, q.format@)
                    &&& es[7].0@ == "variables"@ && is_global_listing(es[7].1, sel, q.format@)
                    &&& has_text(
                        es,
                        8,
                        "message"@,
                        "Found "@ + dec_str(sel.len()) + " global variables"@,
                    )
                },
                Err(e) => reports_error(r, e),
            },
    {
        match outcome {
            Ok(vars) => {
                let sel = self.select(q, vars);
                let n = sel.len();
                let globals = count_scope(&sel, "global");
                let statics = count_scope(&sel, "static");
                let listed = Self::format_global_variables(&sel, q.format.as_str());
                proof {
                    reveal_strlit("");
                    assert(""@ =~= Seq::<char>::empty());
                }
                let module = match &q.module_filter {
                    Some(m) => m.clone(),
                    None => "".to_owned(),
                };
                let pattern = match &q.name_pattern {
                    Some(p) => p.clone(),
                    None => "".to_owned(),
                };
                let mut msg = String::new();
                push_str(&mut msg, "Found ");
                push_dec(&mut msg, n as u64);
                push_str(&mut msg, " global variables");
                let mut es: Vec<(String, Json)> = Vec::new();
                es.push(entry("total_globals", Json::UInt(n as u64)));
                es.push(entry("global_variables", Json::UInt(globals as u64)));
                es.push(entry("static_variables", Json::UInt(statics as u64)));
                es.push(entry("module_filter", Json::Str(module)));
                es.push(entry("name_pattern", Json::Str(pattern)));
                es.push(entry("include_static", Json::Bool(q.include_static)));
                es.push(entry("format", Json::Str(q.format.clone())));
                es.push(entry("variables", listed));
                es.push(entry("message", Json::Str(msg)));
                ToolResponse::Json(Json::Object(es))
            },
            Err(e) => error_response(&e),
        }
    }
}

// ---------------------------------------------------------------------------
// evaluate_expression
// ---------------------------------------------------------------------------

/// The calls an evaluated expression may not make: those refused in a
/// frame, and the removal of files and directories.
pub open spec fn expression_danger_patterns() -> Seq<Seq<char>> {
    unsafe_expression_patterns() + seq!["remove("@, "unlink("@, "rmdir("@]
}

/// The truth value that the result text `result` reads as, given its
/// lowercase form `lowered`: `true`, `1` and `yes` are true, `false`, `0`
/// and `no` are false, and any other text is true where it reads as a
/// nonzero `i64`.
pub open spec fn truth_of(result: Seq<char>, lowered: Seq<char>) -> bool {
    if lowered == "true"@ || lowered == "1"@ || lowered == "yes"@ {
        true
    } else if lowered == "false"@ || lowered == "0"@ || lowered == "no"@ {
        false
    } else {
        match parse_signed(result) {
            Some(n) => n != 0,
            None => false,
        }
    }
}

/// `j` is the result text `result` in the format `format`, where
/// `lowered` is its lowercase form: `boolean` gives its truth value, any
/// other format is read as in a frame.
pub open spec fn is_expression_result(
    j: Json,
    result: Seq<char>,
    lowered: Seq<char>,
    format: Seq<char>,
) -> bool {
    if format == "boolean"@ {
        j == Json::Bool(truth_of(result, lowered))
    } else {
        is_formatted_result(j, result, format)
    }
}

/// An expression to evaluate.
#[derive(Debug)]
pub struct ExpressionRequest {
    pub expression: String,
    pub format: String,
    pub timeout_ms: u64,
}

/// Evaluates an expression in the current context.
#[derive(Debug)]
pub struct EvaluateExpressionTool;

impl EvaluateExpressionTool {
    pub fn name(&self) -> (r: &'static str)
        ensures
            r@ == "evaluate_expression"@,
    {
        "evaluate_expression"
    }

    pub fn description(&self) -> (r: &'static str)
        ensures
            r@ == "Evaluate C/C++ expressions in the current debugging context"@,
    {
        "Evaluate C/C++ expressions in the current debugging context"
    }

    /// Whether `expr` calls something that could harm the process or the
    /// system.
    pub fn is_unsafe_expression(expr: &str) -> (r: bool)
        ensures
            r == contains_any(expr@, expression_danger_patterns()),
    {
        let patterns: Vec<&str> = vec![
            "system(",
            "exec(",
            "fork(",
            "kill(",
            "delete ",
            "free(",
            "malloc(",
            "realloc(",
            "memcpy(",
            "memset(",
            "strcpy(",
            "exit(",
            "abort(",
            "_exit(",
            "remove(",
            "unlink(",
            "rmdir(",
        ];
        assert(patterns@.map_values(|p: &str| p@) =~= expression_danger_patterns());
        str_contains_any(expr, &patterns)
    }

    /// The truth value of the result text `result` whose lowercase form is
    /// `lowered`.
    pub fn truth_value(result: &str, lowered: &str) -> (r: bool)
        ensures
            r == truth_of(result@, lowered@),
    {
        if str_eq(lowered, "true") || str_eq(lowered, "1") || str_eq(lowered, "yes") {
            true
        } else if str_eq(lowered, "false") || str_eq(lowered, "0") || str_eq(lowered, "no") {
            false
        } else {
            match parse_i64(result) {
                Some(n) => n != 0,
                None => false,
            }
        }
    }

    /// The result text `result` in the format `format`.
    pub fn format_expression_result(result: &str, format: &str) -> (r: Json)
        ensures
            is_expression_result(r, result@, lowercase_of(result@), format@),
    {
        if str_eq(format, "boolean") {
            let lowered = to_lowercase(result);
            Json::Bool(Self::truth_value(result, lowered.as_str()))
        } else {
            EvaluateInFrameTool::format_result(result, format)
        }
    }

    /// Reads the question: the expression (required), the format
    /// (`format`, `auto` by default) and the time limit (`timeout_ms`,
    /// 5000 by default). An unsafe expression is answered at once.
    pub fn request(&self, args: &Arguments) -> (r: Result<Result<ExpressionRequest, ToolResponse>, IncodeError>)
        ensures
            match as_text(lookup(args@, "expression"@)) {
                None => r matches Err(IncodeError::McpProtocol(m)) && m@
                    == "Missing expression parameter"@,
                Some(e) => if contains_any(e, expression_danger_patterns()) {
                    r matches Ok(Err(resp)) && is_failure(resp, "Unsafe expression detected: "@ + e)
                } else {
                    r matches Ok(Ok(q)) && q.expression@ == e && q.format@ == match as_text(
                        lookup(args@, "format"@),
                    ) {
                        Some(t) => t,
                        None => "auto"@,
                    } && q.timeout_ms == match as_uint(lookup(args@, "timeout_ms"@)) {
                        Some(n) => n,
                        None => 5000,
                    }
                },
            },
    {
        let expression = match arg_str(args, "expression") {
            Some(e) => e,
            None => {
                return Err(IncodeError::mcp("Missing expression parameter"));
            },
        };
        let format = arg_str_or(args, "format", "auto");
        let timeout_ms = arg_u64_or(args, "timeout_ms", 5000);
        if Self::is_unsafe_expression(expression.as_str()) {
            let mut msg = String::new();
            push_str(&mut msg, "Unsafe expression detected: ");
            push_str(&mut msg, expression.as_str());
            return Ok(Err(ToolResponse::Error(msg)));
        }
        Ok(Ok(ExpressionRequest { expression, format, timeout_ms }))
    }

    /// The answer: the raw and formatted result of evaluating `q`.
    pub fn respond(&self, q: &ExpressionRequest, outcome: Result<String, IncodeError>) -> (r:
        ToolResponse)
        ensures
            match outcome {
                Ok(raw) => {
                    let es = json_entries(r);
                    &&& is_json_object(r, 7)
                    &&& has_text(es, 0, "expression"@, q.expression@)
                    &&& has_text(es, 1, "raw_result"@, raw@)
                    &&& es[2].0@ == "formatted_result"@ && is_expression_result(
                        es[2].1,
                        raw@,
                        lowercase_of(raw@),
                        q.format@,
                    )
                    &&& has_text(es, 3, "format"@, q.format@)
                    &&& has_value(es, 4, "timeout_ms"@, Json::UInt(q.timeout_ms))
                    &&& has_value(es, 5, "success"@, Json::Bool(true))
                    &&& has_text(
                        es,
                        6,
                        "message"@,
                        "Expression '"@ + q.expression@ + "' evaluated successfully"@,
                    )
                },
                Err(e) => reports_error(r, e),
            },
    {
        match outcome {
            Ok(raw) => {
                let formatted = Self::format_expression_result(raw.as_str(), q.format.as_str());
                let mut msg = String::new();
                push_str(&mut msg, "Expression '");
                push_str(&mut msg, q.expression.as_str());
                push_str(&mut msg, "' evaluated successfully");
                let mut es: Vec<(String, Json)> = Vec::new();
                es.push(entry("expression", Json::Str(q.expression.clone())));
                es.push(entry("raw_result", Json::Str(raw)));
                es.push(entry("formatted_result", formatted));
                es.push(entry("format", Json::Str(q.format.clone())));
                es.push(entry("timeout_ms", Json::UInt(q.timeout_ms)));
                es.push(entry("success", Json::Bool(true)));
                es.push(entry("message", Json::Str(msg)));
                ToolResponse::Json(Json::Object(es))
            },
            Err(e) => error_response(&e),
        }
    }
}

// ---------------------------------------------------------------------------
// get_variable_info
// ---------------------------------------------------------------------------

/// `v` describes `info`, with its address and its declaration where they
/// are asked for.
pub open spec fn is_variable_info_json(
    v: Json,
    info: VariableInfo,
    include_address: bool,
    include_declaration: bool,
) -> bool {
    v matches Json::Object(es) && {
        let es = es@;
        let at: int = if include_address {
            13
        } else {
            11
        };
        &&& es.len() == at + if include_declaration {
            1int
        } else {
            0int
        }
        &&& has_text(es, 0, "name"@, info.name@)
        &&& has_text(es, 1, "full_name"@, info.full_name@)
        &&& has_text(es, 2, "type"@, info.var_type@)
        &&& has_text(es, 3, "type_class"@, info.type_class@)
        &&& has_text(es, 4, "value"@, info.value@)
        &&& has_value(es, 5, "size"@, Json::UInt(info.size as u64))
        &&& has_value(es, 6, "is_valid"@, Json::Bool(info.is_valid))
        &&& has_value(es, 7, "is_in_scope"@, Json::Bool(info.is_in_scope))
        &&& has_text(es, 8, "location"@, info.location@)
        &&& has_value(es, 9, "include_address"@, Json::Bool(include_address))
        &&& has_value(es, 10, "include_declaration"@, Json::Bool(include_declaration))
        &&& include_address ==> has_text(es, 11, "address"@, hex_addr(info.address as nat))
            && has_value(es, 12, "address_decimal"@, Json::UInt(info.address))
        &&& include_declaration ==> es[at].0@ == "declaration"@ && (es[at].1 matches Json::Object(
            d,
        ) && d@.len() == 2 && d@[0].0@ == "file"@ && crate::json::is_opt_text_value(
            d@[0].1,
            opt_view(info.declaration_file),
        ) && d@[1].0@ == "line"@ && crate::json::is_opt_uint_value(
            d@[1].1,
            match info.declaration_line {
                Some(l) => Some(l as u64),
                None => None,
            },
        ))
    }
}

/// What to tell of a variable.
#[derive(Debug)]
pub struct VariableInfoRequest {
    pub variable_name: String,
    pub include_address: bool,
    pub include_declaration: bool,
}

/// Describes one variable in detail.
#[derive(Debug)]
pub struct GetVariableInfoTool;

impl GetVariableInfoTool {
    pub fn name(&self) -> (r: &'static str)
        ensures
            r@ == "get_variable_info"@,
    {
        "get_variable_info"
    }

    pub fn description(&self) -> (r: &'static str)
        ensures
            r@
                == "Get detailed information about a specific variable including type, location, and metadata"@,
    {
        "Get detailed information about a specific variable including type, location, and metadata"
    }

    /// Reads the variable's name (required) and whether its address
    /// (`include_address`) and its declaration (`include_declaration`) are
    /// shown, both by default.
    pub fn request(&self, args: &Arguments) -> (r: Result<VariableInfoRequest, IncodeError>)
        ensures
            match as_text(lookup(args@, "variable_name"@)) {
                None => r matches Err(IncodeError::McpProtocol(m)) && m@
                    == "Missing variable_name parameter"@,
                Some(n) => r matches Ok(q) && q.variable_name@ == n && q.include_address
                    == match as_boolean(lookup(args@, "include_address"@)) {
                    Some(b) => b,
                    None => true,
                } && q.include_declaration == match as_boolean(
                    lookup(args@, "include_declaration"@),
                ) {
                    Some(b) => b,
                    None => true,
                },
            },
    {
        let variable_name = match arg_str(args, "variable_name") {
            Some(n) => n,
            None => {
                return Err(IncodeError::mcp("Missing variable_name parameter"));
            },
        };
        Ok(
            VariableInfoRequest {
                variable_name,
                include_address: arg_bool_or(args, "include_address", true),
                include_declaration: arg_bool_or(args, "include_declaration", true),
            },
        )
    }

    /// The answer: the description of the variable and a message.
    pub fn respond(&self, q: &VariableInfoRequest, outcome: Result<VariableInfo, IncodeError>) -> (r:
        ToolResponse)
        ensures
            match outcome {
                Ok(info) => {
                    let es = json_entries(r);
                    &&& is_json_object(r, 2)
                    &&& es[0].0@ == "variable_info"@ && is_variable_info_json(
                        es[0].1,
                        info,
                        q.include_address,
                        q.include_declaration,
                    )
                    &&& has_text(
                        es,
                        1,
                        "message"@,
                        "Retrieved detailed information for variable '"@ + q.variable_name@
                            + "'"@,
                    )
                },
                Err(e) => reports_error(r, e),
            },
    {
        match outcome {
            Ok(info) => {
                let mut vs: Vec<(String, Json)> = Vec::new();
                vs.push(entry("name", Json::Str(info.name.clone())));
                vs.push(entry("full_name", Json::Str(info.full_name.clone())));
                vs.push(entry("type", Json::Str(info.var_type.clone())));
                vs.push(entry("type_class", Json::Str(info.type_class.clone())));
                vs.push(entry("value", Json::Str(info.value.clone())));
                vs.push(entry("size", Json::UInt(info.size as u64)));
                vs.push(entry("is_valid", Json::Bool(info.is_valid)));
                vs.push(entry("is_in_scope", Json::Bool(info.is_in_scope)));
                vs.push(entry("location", Json::Str(info.location.clone())));
                vs.push(entry("include_address", Json::Bool(q.include_address)));
                vs.push(entry("include_declaration", Json::Bool(q.include_declaration)));
                if q.include_address {
                    vs.push(entry("address", Json::Str(hex_address(info.address))));
                    vs.push(entry("address_decimal", Json::UInt(info.address)));
                }
                if q.include_declaration {
                    let line = match info.declaration_line {
                        Some(l) => Some(l as u64),
                        None => None,
                    };
                    let mut d: Vec<(String, Json)> = Vec::new();
                    d.push(entry("file", jopt_str(&info.declaration_file)));
                    d.push(entry("line", jopt_u64(line)));
                    vs.push(entry("declaration", Json::Object(d)));
                }
                let mut msg = String::new();
                push_str(&mut msg, "Retrieved detailed information for variable '");
                push_str(&mut msg, q.variable_name.as_str());
                push_str(&mut msg, "'");
                let mut es: Vec<(String, Json)> = Vec::new();
                es.push(entry("variable_info", Json::Object(vs)));
                es.push(entry("message", Json::Str(msg)));
                ToolResponse::Json(Json::Object(es))
            },
            Err(e) => error_response(&e),
        }
    }
}

// ---------------------------------------------------------------------------
// Tools that are not available yet
// ---------------------------------------------------------------------------

/// Changing a variable's value: not available yet.
#[derive(Debug)]
pub struct SetVariableTool;

impl SetVariableTool {
    pub fn name(&self) -> (r: &'static str)
        ensures
            r@ == "set_variable"@,
    {
        "set_variable"
    }

    pub fn description(&self) -> (r: &'static str)
        ensures
            r@ == "Modify variable value during debugging"@,
    {
        "Modify variable value during debugging"
    }

    /// The answer, whatever the arguments.
    pub fn execute(&self, args: &Arguments) -> (r: ToolResponse)
        ensures
            is_failure(r, "Not yet implemented"@),
    {
        failure("Not yet implemented")
    }
}

/// Looking a symbol up by name: not available yet.
#[derive(Debug)]
pub struct LookupSymbolTool;

impl LookupSymbolTool {
    pub fn name(&self) -> (r: &'static str)
        ensures
            r@ == "lookup_symbol"@,
    {
        "lookup_symbol"
    }

    pub fn description(&self) -> (r: &'static str)
        ensures
            r@ == "Find symbol information by name"@,
    {
        "Find symbol information by name"
    }

    /// The answer, whatever the arguments.
    pub fn execute(&self, args: &Arguments) -> (r: ToolResponse)
        ensures
            is_failure(r, "Not yet implemented"@),
    {
        failure("Not yet implemented")
    }
}

/// A stand-in for the variable tools.
#[derive(Debug)]
pub struct PlaceholderTool;

impl PlaceholderTool {
    pub fn name(&self) -> (r: &'static str)
        ensures
            r@ == "variables_placeholder"@,
    {
        "variables_placeholder"
    }

    pub fn description(&self) -> (r: &'static str)
        ensures
            r@ == "Variable inspection placeholder - use specific variable tools instead"@,
    {
        "Variable inspection placeholder - use specific variable tools instead"
    }

    /// The answer, whatever the arguments: use the variable tools.
    pub fn execute(&self, args: &Arguments) -> (r: ToolResponse)
        ensures
            is_failure(r, "Use specific variable inspection tools like get_variables instead"@),
    {
        failure("Use specific variable inspection tools like get_variables instead")
    }
}

} // verus!
