//! The structure document of a record: `git-staircase/structure` version 1,
//! a linear staircase with its lineage, integration anchor, steps, layout,
//! policies and provider state.

use vstd::prelude::*;
use crate::collections::SortedMap;
use crate::error::{Result, StaircaseError};
use crate::git::repo::GitRepo;
use crate::json::{canonicalize, first_member, json_same, spec_as_str, spec_get, JsonValue};
use crate::model::{LandingPolicy, StaircaseMetadata, StaircaseUserMetadata, Step, VerificationPolicy};
use crate::text::{cat, opt_view, owned, starts_with, str_eq, strip_prefix, trim_end, views};

verus! {

/// The extension that holds the policies.
pub const POLICY_EXTENSION: &'static str = "git-staircase.policies";
/// The extension that holds the discovery overrides.
pub const DISCOVERY_EXTENSION: &'static str = "git-staircase.discovery-overrides";
/// The extension that holds the integration anchor.
pub const ANCHOR_EXTENSION: &'static str = "git-staircase.internal.integration-anchor";
/// The extension that holds the structural state.
pub const STRUCTURAL_STATE_EXTENSION: &'static str = "git-staircase.internal.structural-state";
/// The extension of Gerrit state.
pub const GERRIT_EXTENSION: &'static str = "git-staircase.gerrit";
/// The extension of GitHub state.
pub const GITHUB_EXTENSION: &'static str = "git-staircase.github";

/// The text of the string member `key` of `v`.
pub open spec fn str_field(v: JsonValue, key: Seq<char>) -> Option<Seq<char>> {
    spec_as_str(spec_get(v, key))
}

/// The first item of an array value.
pub open spec fn first_item(v: Option<JsonValue>) -> Option<JsonValue> {
    match v {
        Some(JsonValue::Array(items)) => if items@.len() > 0 { Some(items@[0]) } else { None },
        _ => None,
    }
}

/// The message for a member that must be a string.
pub open spec fn field_message(key: Seq<char>) -> Seq<char> {
    "structure field '"@ + key + "' must be a string"@
}

/// A branch named by its ref: without `refs/heads/` when it has it.
pub open spec fn branch_of_ref(reference: Seq<char>) -> Seq<char> {
    if "refs/heads/"@.is_prefix_of(reference) {
        reference.skip(11)
    } else {
        reference
    }
}

/// One step of a structure: its id, name and cut (of the structure's object
/// format) and, from its first materializing ref, its branch; or the message
/// of what is wrong with it.
pub open spec fn spec_parse_step(step: JsonValue, object_format: Seq<char>) -> core::result::Result<(Seq<char>, Seq<char>, Seq<char>, Option<Seq<char>>), Seq<char>> {
    match str_field(step, "id"@) {
        None => Err(field_message("id"@)),
        Some(id) => match str_field(step, "name"@) {
            None => Err(field_message("name"@)),
            Some(name) => match spec_get(step, "cut_oid"@) {
                None => Err("step missing cut_oid"@),
                Some(cut) => match str_field(cut, "algorithm"@) {
                    None => Err(field_message("algorithm"@)),
                    Some(alg) => if alg != object_format {
                        Err("step cut object format does not match structure"@)
                    } else {
                        match str_field(cut, "hex"@) {
                            None => Err(field_message("hex"@)),
                            Some(hex) => {
                                let branch = match spec_as_str(first_item(spec_get(step, "materializing_refs"@))) {
                                    Some(r) => Some(branch_of_ref(r)),
                                    None => None,
                                };
                                if id.len() == 0 || name.len() == 0 || hex.len() == 0 {
                                    Err("structure contains an empty or incomplete step"@)
                                } else {
                                    Ok((id, name, hex, branch))
                                }
                            },
                        }
                    },
                },
            },
        },
    }
}

/// The steps of a structure in order, or the message for the first bad one.
pub open spec fn spec_parse_steps(items: Seq<JsonValue>, object_format: Seq<char>) -> core::result::Result<Seq<(Seq<char>, Seq<char>, Seq<char>, Option<Seq<char>>)>, Seq<char>>
    decreases items.len(),
{
    if items.len() == 0 {
        Ok(seq![])
    } else {
        match spec_parse_steps(items.drop_last(), object_format) {
            Err(m) => Err(m),
            Ok(steps) => match spec_parse_step(items.last(), object_format) {
                Err(m) => Err(m),
                Ok(s) => Ok(steps.push(s)),
            },
        }
    }
}

/// A bad step among the first `k` makes the whole list bad.
proof fn lemma_parse_steps_prefix_err(items: Seq<JsonValue>, k: int, object_format: Seq<char>)
    requires
        0 <= k <= items.len(),
        spec_parse_steps(items.take(k), object_format) is Err,
    ensures
        spec_parse_steps(items, object_format) is Err,
    decreases items.len(),
{
    if k < items.len() {
        assert(items.drop_last().take(k) =~= items.take(k));
        lemma_parse_steps_prefix_err(items.drop_last(), k, object_format);
    } else {
        assert(items.take(k) =~= items);
    }
}

/// A step by its id, name, cut and branch.
pub open spec fn step_view(s: Step) -> (Seq<char>, Seq<char>, Seq<char>, Option<Seq<char>>) {
    (s.id@, s.name@, s.cut@, match s.branch { Some(b) => Some(b@), None => None })
}

/// The schema and version of a structure are supported.
pub open spec fn schema_supported(value: JsonValue) -> bool {
    &&& str_field(value, "schema"@) == Some("git-staircase/structure"@)
    &&& spec_get(value, "version"@) matches Some(JsonValue::Number(n)) && n@ == "1"@
}

/// The message for an unsupported structure schema.
pub open spec fn unsupported_schema_message() -> Seq<char> {
    "unsupported structure schema; expected git-staircase/structure version 1"@
}

/// The text of the string member `key`, or the error that it must be a string.
fn required_str<'a>(value: &'a JsonValue, key: &str) -> (r: Result<&'a str>)
    ensures
        match str_field(*value, key@) {
            Some(s) => r matches Ok(t) && t@ == s,
            None => r matches Err(StaircaseError::Other(m)) && m@ == field_message(key@),
        },
{
    match value.get(key) {
        Some(v) => match v.as_str() {
            Some(s) => Ok(s),
            None => {
                let mut m = cat("structure field '", key);
                m.append("' must be a string");
                Err(StaircaseError::Other(m))
            },
        },
        None => {
            let mut m = cat("structure field '", key);
            m.append("' must be a string");
            Err(StaircaseError::Other(m))
        },
    }
}

/// The first item of an array member, when there is one.
fn first_of<'a>(value: &'a JsonValue, key: &str) -> (r: Option<&'a JsonValue>)
    ensures
        match r { Some(v) => Some(*v), None => None } == first_item(spec_get(*value, key@)),
{
    match value.get(key) {
        Some(v) => match v.as_array() {
            Some(items) => if items.len() > 0 { Some(&items[0]) } else { None },
            None => None,
        },
        None => None,
    }
}

/// Reads one step (see [`spec_parse_step`]).
pub fn parse_step(step: &JsonValue, object_format: &str) -> (r: Result<Step>)
    ensures
        match spec_parse_step(*step, object_format@) {
            Ok(v) => r matches Ok(s) && step_view(s) == v,
            Err(m) => r matches Err(StaircaseError::Other(e)) && e@ == m,
        },
{
    proof {
        reveal_strlit("refs/heads/");
    }
    let id = required_str(step, "id")?;
    let name = required_str(step, "name")?;
    let cut_oid = match step.get("cut_oid") {
        Some(c) => c,
        None => return Err(StaircaseError::Other(owned("step missing cut_oid"))),
    };
    let alg = required_str(cut_oid, "algorithm")?;
    if !str_eq(alg, object_format) {
        return Err(StaircaseError::Other(owned("step cut object format does not match structure")));
    }
    let cut = required_str(cut_oid, "hex")?;
    let branch = match first_of(step, "materializing_refs") {
        Some(v) => match v.as_str() {
            Some(reference) => match strip_prefix(reference, "refs/heads/") {
                Some(b) => Some(b),
                None => Some(owned(reference)),
            },
            None => None,
        },
        None => None,
    };
    if id.unicode_len() == 0 || name.unicode_len() == 0 || cut.unicode_len() == 0 {
        return Err(StaircaseError::Other(owned("structure contains an empty or incomplete step")));
    }
    Ok(Step { id: owned(id), name: owned(name), cut: owned(cut), branch })
}

/// The landing policy that a name denotes.
pub open spec fn spec_landing_policy(name: Seq<char>) -> Option<LandingPolicy> {
    if name == "aggregate-only"@ {
        Some(LandingPolicy::AggregateOnly)
    } else if name == "stepwise"@ {
        Some(LandingPolicy::Stepwise)
    } else if name == "either"@ {
        Some(LandingPolicy::Either)
    } else {
        None
    }
}

/// A landing policy as the structure names it (see [`spec_landing_policy`]).
pub fn landing_policy_of(value: &JsonValue) -> (r: Option<LandingPolicy>)
    ensures
        r == match value { JsonValue::String(s) => spec_landing_policy(s@), _ => None },
{
    match value.as_str() {
        Some(s) => {
            if str_eq(s, "aggregate-only") {
                Some(LandingPolicy::AggregateOnly)
            } else if str_eq(s, "stepwise") {
                Some(LandingPolicy::Stepwise)
            } else if str_eq(s, "either") {
                Some(LandingPolicy::Either)
            } else {
                None
            }
        },
        None => None,
    }
}

/// An optional command as a member holds it: a string, or `null` or no
/// member for none; any other value is not a command.
pub open spec fn optional_command(v: Option<JsonValue>) -> Option<Option<Seq<char>>> {
    match v {
        Some(JsonValue::String(s)) => Some(Some(s@)),
        Some(JsonValue::Null) => Some(None),
        None => Some(None),
        _ => None,
    }
}

/// The verification policy (build command, test command, whether each
/// prefix is verified) that a structure value records, when it is one.
pub open spec fn spec_verification_policy(v: JsonValue) -> Option<(Option<Seq<char>>, Option<Seq<char>>, bool)> {
    match (spec_get(v, "verify_each_prefix"@), optional_command(spec_get(v, "build_command"@)),
        optional_command(spec_get(v, "test_command"@))) {
        (Some(JsonValue::Bool(b)), Some(build), Some(test)) => Some((build, test, b)),
        _ => None,
    }
}

/// A verification policy by its commands and flag.
pub open spec fn policy_view(p: VerificationPolicy) -> (Option<Seq<char>>, Option<Seq<char>>, bool) {
    (opt_view(p.build_command), opt_view(p.test_command), p.verify_each_prefix)
}

/// An optional command member (see [`optional_command`]).
fn command_member(value: &JsonValue, key: &str) -> (r: Option<Option<String>>)
    ensures
        match r { Some(c) => Some(opt_view(c)), None => None } == optional_command(spec_get(*value, key@)),
{
    match value.get(key) {
        Some(JsonValue::String(s)) => Some(Some(s.clone())),
        Some(JsonValue::Null) => Some(None),
        None => Some(None),
        _ => None,
    }
}

/// A verification policy as the structure records it: optional build and
/// test commands and a required `verify_each_prefix` flag (see
/// [`spec_verification_policy`]).
pub fn verification_policy_of(value: &JsonValue) -> (r: Option<VerificationPolicy>)
    ensures
        match r { Some(p) => Some(policy_view(p)), None => None } == spec_verification_policy(*value),
{
    let verify_each_prefix = match value.get("verify_each_prefix") {
        Some(JsonValue::Bool(b)) => *b,
        _ => return None,
    };
    let build_command = match command_member(value, "build_command") {
        Some(c) => c,
        None => return None,
    };
    let test_command = match command_member(value, "test_command") {
        Some(c) => c,
        None => return None,
    };
    Some(VerificationPolicy { build_command, test_command, verify_each_prefix })
}

/// `serde::de::Error::custom` for JSON: a data error with `message`.
#[verifier::external_body]
pub(crate) fn json_data_error(message: &str) -> serde_json::Error {
    <serde_json::Error as serde::de::Error>::custom(message)
}

/// The structural extensions read from a structure: policies, discovery
/// overrides, the integration anchor, the structural state and the
/// provider states, each a JSON value.
pub type StructuralExtensions = SortedMap<JsonValue>;

/// The hex of the first integration anchor of a structure.
pub open spec fn spec_anchor(v: JsonValue) -> Option<Seq<char>> {
    match spec_get(v, "integration_context"@) {
        Some(c) => match first_item(spec_get(c, "anchors"@)) {
            Some(a) => spec_as_str(spec_get(a, "hex"@)),
            None => None,
        },
        None => None,
    }
}

/// The first symbolic target of a structure.
pub open spec fn spec_symbolic_target(v: JsonValue) -> Option<Seq<char>> {
    match spec_get(v, "integration_context"@) {
        Some(c) => spec_as_str(first_item(spec_get(c, "symbolic_targets"@))),
        None => None,
    }
}

/// The target of a structure: its first symbolic target, else its anchor.
pub open spec fn spec_structure_target(v: JsonValue) -> Seq<char> {
    match spec_symbolic_target(v) {
        Some(t) => t,
        None => spec_anchor(v)->0,
    }
}

/// The step values of a structure, when `steps` is an array.
pub open spec fn spec_step_items(v: JsonValue) -> Option<Seq<JsonValue>> {
    match spec_get(v, "steps"@) {
        Some(JsonValue::Array(items)) => Some(items@),
        _ => None,
    }
}

/// The `git-staircase.core` member of a structure's extensions.
pub open spec fn spec_core(v: JsonValue) -> Option<JsonValue> {
    match spec_get(v, "extensions"@) {
        Some(e) => spec_get(e, "git-staircase.core"@),
        None => None,
    }
}

/// The landing policy a structure records: none when absent or null;
/// `None` (an error) when it names no policy.
pub open spec fn spec_structure_landing(v: JsonValue) -> Option<Option<LandingPolicy>> {
    match spec_core(v) {
        Some(c) => match spec_get(c, "landing_policy"@) {
            Some(JsonValue::Null) => Some(None),
            Some(JsonValue::String(s)) => match spec_landing_policy(s@) {
                Some(p) => Some(Some(p)),
                None => None,
            },
            Some(_) => None,
            None => Some(None),
        },
        None => Some(None),
    }
}

/// The verification policy a structure records: none when absent or null;
/// `None` (an error) when it is not a policy.
pub open spec fn spec_structure_verification(v: JsonValue) -> Option<Option<(Option<Seq<char>>, Option<Seq<char>>, bool)>> {
    match spec_core(v) {
        Some(c) => match spec_get(c, "verification_policy"@) {
            Some(JsonValue::Null) => Some(None),
            Some(x) => match spec_verification_policy(x) {
                Some(p) => Some(Some(p)),
                None => None,
            },
            None => Some(None),
        },
        None => Some(None),
    }
}

/// The layout kind of a structure, `none` when it names none.
pub open spec fn spec_layout_kind(v: JsonValue) -> Seq<char> {
    match spec_get(v, "layout"@) {
        Some(l) => match spec_as_str(spec_get(l, "kind"@)) {
            Some(t) => t,
            None => "none"@,
        },
        None => "none"@,
    }
}

/// The layout base of a structure.
pub open spec fn spec_layout_base(v: JsonValue) -> Option<Seq<char>> {
    match spec_get(v, "layout"@) {
        Some(l) => spec_as_str(spec_get(l, "base"@)),
        None => None,
    }
}

/// The provider state `key` among a structure's extensions.
pub open spec fn spec_provider(v: JsonValue, key: Seq<char>) -> Option<JsonValue> {
    match spec_get(v, "extensions"@) {
        Some(e) => match e {
            JsonValue::Object(_) => spec_get(e, key),
            _ => None,
        },
        None => None,
    }
}

/// A structure that reads as a staircase: the supported schema, a linear
/// kind, an object format, a lineage id, an integration anchor, at least
/// one well-formed step, and valid policies when present.
pub open spec fn structure_valid(v: JsonValue) -> bool {
    &&& schema_supported(v)
    &&& str_field(v, "kind"@) == Some("linear"@)
    &&& str_field(v, "object_format"@) is Some
    &&& str_field(v, "lineage_id"@) is Some
    &&& spec_anchor(v) is Some
    &&& spec_step_items(v) matches Some(items) && spec_parse_steps(items, str_field(v, "object_format"@)->0) matches Ok(ps)
        && ps.len() > 0
    &&& spec_structure_landing(v) is Some
    &&& spec_structure_verification(v) is Some
}

/// The structural extensions read from `v` are `ext`: policies (default
/// `{}`), discovery overrides (default `[]`), the anchor as a string, the
/// structural state (default `{"kind":"clean"}`), and the provider states
/// present among the extensions; nothing else.
pub open spec fn extensions_read(v: JsonValue, ext: Map<Seq<char>, JsonValue>) -> bool {
    &&& ext.contains_key(POLICY_EXTENSION@) && match spec_get(v, "policies"@) {
        Some(p) => json_same(p, ext[POLICY_EXTENSION@]),
        None => ext[POLICY_EXTENSION@] matches JsonValue::Object(ms) && ms@.len() == 0,
    }
    &&& ext.contains_key(DISCOVERY_EXTENSION@) && match spec_get(v, "discovery_overrides"@) {
        Some(p) => json_same(p, ext[DISCOVERY_EXTENSION@]),
        None => ext[DISCOVERY_EXTENSION@] matches JsonValue::Array(items) && items@.len() == 0,
    }
    &&& ext.contains_key(ANCHOR_EXTENSION@) && (ext[ANCHOR_EXTENSION@] matches JsonValue::String(a) && Some(a@) == spec_anchor(v))
    &&& ext.contains_key(STRUCTURAL_STATE_EXTENSION@) && match spec_get(v, "structural_state"@) {
        Some(p) => json_same(p, ext[STRUCTURAL_STATE_EXTENSION@]),
        None => ext[STRUCTURAL_STATE_EXTENSION@] matches JsonValue::Object(ms) && ms@.len() == 1 && ms@[0].0@ == "kind"@
            && (ms@[0].1 matches JsonValue::String(k) && k@ == "clean"@),
    }
    &&& ext.contains_key(GERRIT_EXTENSION@) <==> spec_provider(v, GERRIT_EXTENSION@) is Some
    &&& spec_provider(v, GERRIT_EXTENSION@) matches Some(p) ==> json_same(p, ext[GERRIT_EXTENSION@])
    &&& ext.contains_key(GITHUB_EXTENSION@) <==> spec_provider(v, GITHUB_EXTENSION@) is Some
    &&& spec_provider(v, GITHUB_EXTENSION@) matches Some(p) ==> json_same(p, ext[GITHUB_EXTENSION@])
    &&& forall|k: Seq<char>| #[trigger] ext.contains_key(k) ==> k == POLICY_EXTENSION@ || k == DISCOVERY_EXTENSION@
        || k == ANCHOR_EXTENSION@ || k == STRUCTURAL_STATE_EXTENSION@ || k == GERRIT_EXTENSION@ || k == GITHUB_EXTENSION@
}

/// The six extension names are distinct.
proof fn lemma_extension_names_distinct()
    ensures
        POLICY_EXTENSION@ != DISCOVERY_EXTENSION@ && POLICY_EXTENSION@ != ANCHOR_EXTENSION@
            && POLICY_EXTENSION@ != STRUCTURAL_STATE_EXTENSION@ && POLICY_EXTENSION@ != GERRIT_EXTENSION@
            && POLICY_EXTENSION@ != GITHUB_EXTENSION@,
        DISCOVERY_EXTENSION@ != ANCHOR_EXTENSION@ && DISCOVERY_EXTENSION@ != STRUCTURAL_STATE_EXTENSION@
            && DISCOVERY_EXTENSION@ != GERRIT_EXTENSION@ && DISCOVERY_EXTENSION@ != GITHUB_EXTENSION@,
        ANCHOR_EXTENSION@ != STRUCTURAL_STATE_EXTENSION@ && ANCHOR_EXTENSION@ != GERRIT_EXTENSION@
            && ANCHOR_EXTENSION@ != GITHUB_EXTENSION@,
        STRUCTURAL_STATE_EXTENSION@ != GERRIT_EXTENSION@ && STRUCTURAL_STATE_EXTENSION@ != GITHUB_EXTENSION@,
        GERRIT_EXTENSION@ != GITHUB_EXTENSION@,
{
    reveal_strlit("git-staircase.policies");
    reveal_strlit("git-staircase.discovery-overrides");
    reveal_strlit("git-staircase.internal.integration-anchor");
    reveal_strlit("git-staircase.internal.structural-state");
    reveal_strlit("git-staircase.gerrit");
    reveal_strlit("git-staircase.github");
    assert(POLICY_EXTENSION@.len() == 22);
    assert(DISCOVERY_EXTENSION@.len() == 33);
    assert(ANCHOR_EXTENSION@.len() == 41);
    assert(STRUCTURAL_STATE_EXTENSION@.len() == 39);
    assert(GERRIT_EXTENSION@.len() == 20);
    assert(GITHUB_EXTENSION@.len() == 20);
    assert(GERRIT_EXTENSION@[15] != GITHUB_EXTENSION@[15]);
}

/// `m` and `ext` are what structure `v` reads as: its lineage, steps,
/// target, layout and policies, and its structural extensions.
pub open spec fn structure_read(v: JsonValue, m: StaircaseMetadata, ext: Map<Seq<char>, JsonValue>) -> bool {
    &&& schema_supported(v)
    &&& str_field(v, "kind"@) == Some("linear"@)
    &&& str_field(v, "lineage_id"@) == Some(m.id@)
    &&& spec_get(v, "steps"@) matches Some(JsonValue::Array(items))
    &&& str_field(v, "object_format"@) matches Some(fmt)
    &&& spec_parse_steps(items@, fmt) == Ok::<Seq<(Seq<char>, Seq<char>, Seq<char>, Option<Seq<char>>)>, Seq<char>>(
        m.steps@.map_values(|s: Step| step_view(s)))
    &&& m.steps@.len() > 0
    &&& m.name@.len() == 0
    &&& m.user_metadata is None
    &&& m.lifecycle is None
    &&& m.target@ == spec_structure_target(v)
    &&& opt_view(m.primary_branch_layout) == (if spec_layout_kind(v) != "none"@ {
        Some(spec_layout_kind(v))
    } else {
        None
    })
    &&& opt_view(m.branch_layout_base) == spec_layout_base(v)
    &&& Some(m.landing_policy) == spec_structure_landing(v)
    &&& Some(match m.verification_policy { Some(p) => Some(policy_view(p)), None => None })
        == spec_structure_verification(v)
    &&& extensions_read(v, ext)
}

/// Reads a parsed structure document into the staircase it describes and
/// its structural extensions. The schema must be `git-staircase/structure`
/// version 1 and the kind `linear`; the staircase needs a lineage id, an
/// integration anchor and at least one well-formed step (see
/// [`spec_parse_step`]).
pub fn parse_structure_value(value: &JsonValue) -> (r: Result<(StaircaseMetadata, StructuralExtensions)>)
    ensures
        !schema_supported(*value) ==> (r matches Err(StaircaseError::Other(m)) && m@ == unsupported_schema_message()),
        schema_supported(*value) && str_field(*value, "kind"@) != Some("linear"@) ==> (r matches Err(
            StaircaseError::UnsupportedTopology { operation, reason }) && operation@ == "read-structure"@
            && reason@ == "only linear generation-1 structures are supported"@),
        r matches Ok((m, ext)) ==> structure_read(*value, m, ext.view()),
        r is Ok <==> structure_valid(*value),
{
    proof {
        lemma_extension_names_distinct();
        reveal_strlit("none");
        reveal_strlit("kind");
        reveal_strlit("clean");
    }
    let schema_ok = match value.get("schema") {
        Some(s) => match s.as_str() {
            Some(t) => str_eq(t, "git-staircase/structure"),
            None => false,
        },
        None => false,
    };
    let version_ok = match value.get("version") {
        Some(JsonValue::Number(n)) => str_eq(n.as_str(), "1"),
        _ => false,
    };
    if !schema_ok || !version_ok {
        return Err(StaircaseError::Other(owned("unsupported structure schema; expected git-staircase/structure version 1")));
    }
    let linear = match value.get("kind") {
        Some(k) => match k.as_str() {
            Some(t) => str_eq(t, "linear"),
            None => false,
        },
        None => false,
    };
    if !linear {
        return Err(StaircaseError::UnsupportedTopology {
            operation: owned("read-structure"),
            reason: owned("only linear generation-1 structures are supported"),
        });
    }
    let object_format = required_str(value, "object_format")?;
    let id = owned(required_str(value, "lineage_id")?);
    let context = match value.get("integration_context") {
        Some(c) => c,
        None => return Err(StaircaseError::Other(owned("structure missing integration_context"))),
    };
    let anchor_hex: Option<&str> = match first_of(context, "anchors") {
        Some(a) => match a.get("hex") {
            Some(h) => h.as_str(),
            None => None,
        },
        None => None,
    };
    let symbolic: Option<&str> = match first_of(context, "symbolic_targets") {
        Some(t) => t.as_str(),
        None => None,
    };
    let target = match symbolic {
        Some(t) => owned(t),
        None => match anchor_hex {
            Some(h) => owned(h),
            None => return Err(StaircaseError::Other(owned("structure has no integration anchor"))),
        },
    };
    let integration_anchor = match anchor_hex {
        Some(h) => owned(h),
        None => return Err(StaircaseError::Other(owned("structure has no integration anchor"))),
    };
    let step_values = match value.get("steps") {
        Some(v) => match v.as_array() {
            Some(items) => items,
            None => return Err(StaircaseError::Other(owned("structure steps must be an array"))),
        },
        None => return Err(StaircaseError::Other(owned("structure steps must be an array"))),
    };
    let mut steps: Vec<Step> = Vec::new();
    let mut i: usize = 0;
    proof {
        assert(step_values@.take(0) =~= Seq::<JsonValue>::empty());
        assert(steps@.map_values(|s: Step| step_view(s)) =~= Seq::<(Seq<char>, Seq<char>, Seq<char>, Option<Seq<char>>)>::empty());
    }
    while i < step_values.len()
        invariant
            i <= step_values@.len(),
            schema_supported(*value),
            str_field(*value, "kind"@) == Some("linear"@),
            spec_step_items(*value) == Some(step_values@),
            str_field(*value, "object_format"@) == Some(object_format@),
            spec_parse_steps(step_values@.take(i as int), object_format@) == Ok::<Seq<(Seq<char>, Seq<char>, Seq<char>, Option<Seq<char>>)>, Seq<char>>(
                steps@.map_values(|s: Step| step_view(s))),
        decreases step_values@.len() - i,
    {
        proof {
            assert(step_values@.take(i + 1).drop_last() =~= step_values@.take(i as int));
            assert(step_values@.take(i + 1).last() == step_values@[i as int]);
        }
        let step = match parse_step(&step_values[i], object_format) {
            Ok(s) => s,
            Err(e) => {
                proof {
                    assert(spec_parse_steps(step_values@.take(i + 1), object_format@) is Err);
                    lemma_parse_steps_prefix_err(step_values@, i + 1, object_format@);
                }
                return Err(e);
            },
        };
        let ghost before = steps@;
        steps.push(step);
        proof {
            assert(steps@.map_values(|s: Step| step_view(s)) =~= before.map_values(|s: Step| step_view(s)).push(step_view(step)));
        }
        i += 1;
    }
    proof {
        assert(step_values@.take(i as int) =~= step_values@);
    }
    if steps.len() == 0 {
        return Err(StaircaseError::Other(owned("structure must contain at least one step")));
    }
    let layout = value.get("layout");
    let layout_kind: &str = match layout {
        Some(l) => match l.get("kind") {
            Some(k) => match k.as_str() {
                Some(t) => t,
                None => "none",
            },
            None => "none",
        },
        None => "none",
    };
    let primary_branch_layout = if !str_eq(layout_kind, "none") {
        Some(owned(layout_kind))
    } else {
        None
    };
    let branch_layout_base = match layout {
        Some(l) => match l.get("base") {
            Some(b) => match b.as_str() {
                Some(t) => Some(owned(t)),
                None => None,
            },
            None => None,
        },
        None => None,
    };
    let core_extensions = match value.get("extensions") {
        Some(e) => e.get("git-staircase.core"),
        None => None,
    };
    let landing_policy = match core_extensions {
        Some(c) => match c.get("landing_policy") {
            Some(JsonValue::Null) => None,
            Some(v) => match landing_policy_of(v) {
                Some(p) => Some(p),
                None => return Err(StaircaseError::Serialization(json_data_error("unknown landing policy"))),
            },
            None => None,
        },
        None => None,
    };
    let verification_policy = match core_extensions {
        Some(c) => match c.get("verification_policy") {
            Some(JsonValue::Null) => None,
            Some(v) => match verification_policy_of(v) {
                Some(p) => Some(p),
                None => return Err(StaircaseError::Serialization(json_data_error("invalid verification policy"))),
            },
            None => None,
        },
        None => None,
    };
    let mut ext: SortedMap<JsonValue> = SortedMap::new();
    let policies = match value.get("policies") {
        Some(p) => p.duplicate(),
        None => JsonValue::Object(Vec::new()),
    };
    ext.insert(owned(POLICY_EXTENSION), policies);
    let overrides = match value.get("discovery_overrides") {
        Some(p) => p.duplicate(),
        None => JsonValue::Array(Vec::new()),
    };
    ext.insert(owned(DISCOVERY_EXTENSION), overrides);
    ext.insert(owned(ANCHOR_EXTENSION), JsonValue::String(integration_anchor));
    let state = match value.get("structural_state") {
        Some(p) => p.duplicate(),
        None => {
            let mut members: Vec<(String, JsonValue)> = Vec::new();
            members.push((owned("kind"), JsonValue::text("clean")));
            JsonValue::Object(members)
        },
    };
    ext.insert(owned(STRUCTURAL_STATE_EXTENSION), state);
    match value.get("extensions") {
        Some(JsonValue::Object(_)) => {
            let extensions = value.get("extensions").unwrap();
            match extensions.get(GERRIT_EXTENSION) {
                Some(p) => ext.insert(owned(GERRIT_EXTENSION), p.duplicate()),
                None => {},
            }
            match extensions.get(GITHUB_EXTENSION) {
                Some(p) => ext.insert(owned(GITHUB_EXTENSION), p.duplicate()),
                None => {},
            }
        },
        _ => {},
    }
    let metadata = StaircaseMetadata {
        landing_policy,
        id,
        name: String::new(),
        target,
        steps,
        verification_policy,
        primary_branch_layout,
        branch_layout_base,
        user_metadata: None,
        lifecycle: None,
    };
    Ok((metadata, ext))
}

/// Reads structure text: its JSON (without trailing whitespace) parsed by
/// the host, then read by [`parse_structure_value`].
pub fn parse_structure(repo: &GitRepo, content: &str) -> (r: Result<(StaircaseMetadata, StructuralExtensions)>)
    ensures
        r matches Ok((m, ext)) ==> exists|v: JsonValue| structure_valid(v) && #[trigger] structure_read(v, m, ext.view()),
{
    let text = crate::text::trim_end_str(content);
    let value = repo.host.parse_json(text.as_str())?;
    parse_structure_value(&value)
}

/// The staircase that a structure describes.
pub fn parse_descriptor(repo: &GitRepo, content: &str) -> (r: Result<StaircaseMetadata>) {
    let (m, _) = parse_structure(repo, content)?;
    Ok(m)
}

/// An object value from its members.
fn object(members: Vec<(String, JsonValue)>) -> (v: JsonValue)
    ensures
        v == JsonValue::Object(members),
{
    JsonValue::Object(members)
}

/// `{"algorithm": <format>, "hex": <hex>}`.
fn typed_oid(format: &str, hex: &str) -> (v: JsonValue)
    ensures
        v matches JsonValue::Object(m) && m@.len() == 2 && m@[0].0@ == "algorithm"@
            && (m@[0].1 matches JsonValue::String(a) && a@ == format@) && m@[1].0@ == "hex"@
            && (m@[1].1 matches JsonValue::String(h) && h@ == hex@),
{
    let mut m: Vec<(String, JsonValue)> = Vec::new();
    m.push((owned("algorithm"), JsonValue::text(format)));
    m.push((owned("hex"), JsonValue::text(hex)));
    object(m)
}

/// The JSON of a landing policy (its kebab-case name).
pub fn landing_policy_json(p: LandingPolicy) -> (v: JsonValue)
    ensures
        v matches JsonValue::String(s) && s@ == spec_landing_name(p),
{
    proof {
        reveal_strlit("aggregate-only");
        reveal_strlit("stepwise");
        reveal_strlit("either");
    }
    match p {
        LandingPolicy::AggregateOnly => JsonValue::text("aggregate-only"),
        LandingPolicy::Stepwise => JsonValue::text("stepwise"),
        LandingPolicy::Either => JsonValue::text("either"),
    }
}

/// The kebab-case name of a landing policy.
pub open spec fn spec_landing_name(p: LandingPolicy) -> Seq<char> {
    match p {
        LandingPolicy::AggregateOnly => "aggregate-only"@,
        LandingPolicy::Stepwise => "stepwise"@,
        LandingPolicy::Either => "either"@,
    }
}

/// A stored landing policy reads back as itself.
pub proof fn law_landing_policy_round_trip(p: LandingPolicy)
    ensures
        spec_landing_policy(spec_landing_name(p)) == Some(p),
{
    reveal_strlit("aggregate-only");
    reveal_strlit("stepwise");
    reveal_strlit("either");
    assert("aggregate-only"@ != "stepwise"@ && "aggregate-only"@ != "either"@ && "stepwise"@ != "either"@) by {
        assert("aggregate-only"@.len() == 14 && "stepwise"@.len() == 8 && "either"@.len() == 6);
    }
}

/// The JSON of an optional command: the string, or `null`.
pub open spec fn command_json_matches(v: JsonValue, c: Option<Seq<char>>) -> bool {
    match c {
        Some(t) => v matches JsonValue::String(s) && s@ == t,
        None => v is Null,
    }
}

/// The JSON of a verification policy: an object with `build_command`,
/// `test_command` (each a string or `null`) and `verify_each_prefix`, in
/// that order.
pub fn verification_policy_json(p: &VerificationPolicy) -> (v: JsonValue)
    ensures
        v matches JsonValue::Object(m) && m@.len() == 3 && m@[0].0@ == "build_command"@
            && command_json_matches(m@[0].1, opt_view(p.build_command)) && m@[1].0@ == "test_command"@
            && command_json_matches(m@[1].1, opt_view(p.test_command)) && m@[2].0@ == "verify_each_prefix"@
            && m@[2].1 == JsonValue::Bool(p.verify_each_prefix),
{
    let mut m: Vec<(String, JsonValue)> = Vec::new();
    m.push((owned("build_command"), match &p.build_command {
        Some(c) => JsonValue::text(c.as_str()),
        None => JsonValue::Null,
    }));
    m.push((owned("test_command"), match &p.test_command {
        Some(c) => JsonValue::text(c.as_str()),
        None => JsonValue::Null,
    }));
    m.push((owned("verify_each_prefix"), JsonValue::Bool(p.verify_each_prefix)));
    object(m)
}

/// A stored verification policy reads back as itself: the object that
/// `verification_policy_json` writes for a policy is read by
/// `verification_policy_of` as that same policy.
pub proof fn law_verification_policy_round_trip(p: VerificationPolicy, v: JsonValue)
    requires
        v matches JsonValue::Object(m) && m@.len() == 3 && m@[0].0@ == "build_command"@
            && command_json_matches(m@[0].1, opt_view(p.build_command)) && m@[1].0@ == "test_command"@
            && command_json_matches(m@[1].1, opt_view(p.test_command)) && m@[2].0@ == "verify_each_prefix"@
            && m@[2].1 == JsonValue::Bool(p.verify_each_prefix),
    ensures
        spec_verification_policy(v) == Some(policy_view(p)),
{
    reveal_strlit("build_command");
    reveal_strlit("test_command");
    reveal_strlit("verify_each_prefix");
    let m = match v {
        JsonValue::Object(m) => m@,
        _ => seq![],
    };
    let rest = m.drop_first();
    assert(rest[0] == m[1] && rest.drop_first()[0] == m[2]);
    assert("build_command"@ != "test_command"@ && "build_command"@ != "verify_each_prefix"@
        && "test_command"@ != "verify_each_prefix"@) by {
        assert("build_command"@.len() == 13 && "test_command"@.len() == 12 && "verify_each_prefix"@.len() == 18);
    }
    assert(first_member(m, "build_command"@) == Some(m[0].1));
    assert(first_member(m, "test_command"@) == first_member(rest, "test_command"@));
    assert(first_member(m, "verify_each_prefix"@) == first_member(rest, "verify_each_prefix"@));
    assert(first_member(rest, "verify_each_prefix"@) == first_member(rest.drop_first(), "verify_each_prefix"@));
}

/// The JSON value of extension `key`, parsed by the host, if present and parseable.
fn extension_value(repo: &GitRepo, extensions: &crate::collections::StringMap<String>, key: &str) -> (r: Option<JsonValue>)
    ensures
        !extensions.view().contains_key(key@) ==> r is None,
{
    match extensions.get(key) {
        Some(text) => match repo.host.parse_json(text.as_str()) {
            Ok(v) => Some(v),
            Err(_) => None,
        },
        None => None,
    }
}

/// The ref that materializes a step's branch: the branch itself when it is
/// a full ref, else `refs/heads/<branch>`.
pub fn materializing_ref(branch: &str) -> (r: String)
    ensures
        r@ == if "refs/"@.is_prefix_of(branch@) { branch@ } else { "refs/heads/"@ + branch@ },
{
    if starts_with(branch, "refs/") {
        owned(branch)
    } else {
        cat("refs/heads/", branch)
    }
}

/// The structure document of `metadata` with the structural extensions of
/// `user_metadata`, as canonical JSON text ending in a newline: the
/// integration anchor is the anchor extension when it holds a string, else
/// the commit that the target names.
pub fn serialize_structure(repo: &GitRepo, metadata: &StaircaseMetadata, user_metadata: &StaircaseUserMetadata) -> (r: Result<String>)
    ensures
        r matches Ok(t) ==> t@.len() > 0 && t@.last() == '\n',
{
    let object_format = repo.get_object_format()?;
    let fmt = object_format.as_str();
    let anchor: Option<String> = match extension_value(repo, &user_metadata.extensions, ANCHOR_EXTENSION) {
        Some(JsonValue::String(s)) => Some(s),
        _ => None,
    };
    let target_oid = match anchor {
        Some(a) => a,
        None => repo.resolve_commit(metadata.target.as_str())?,
    };
    let mut steps: Vec<JsonValue> = Vec::new();
    let mut i: usize = 0;
    while i < metadata.steps.len()
        invariant
            i <= metadata.steps@.len(),
        decreases metadata.steps@.len() - i,
    {
        let step = &metadata.steps[i];
        let mut refs_a: Vec<JsonValue> = Vec::new();
        let mut refs_b: Vec<JsonValue> = Vec::new();
        match &step.branch {
            Some(b) => {
                let r = materializing_ref(b.as_str());
                refs_a.push(JsonValue::text(r.as_str()));
                refs_b.push(JsonValue::String(r));
            },
            None => {},
        }
        let mut m: Vec<(String, JsonValue)> = Vec::new();
        m.push((owned("id"), JsonValue::text(step.id.as_str())));
        m.push((owned("name"), JsonValue::text(step.name.as_str())));
        m.push((owned("cut_oid"), typed_oid(fmt, step.cut.as_str())));
        m.push((owned("materializing_refs"), JsonValue::Array(refs_a)));
        m.push((owned("owned_refs"), JsonValue::Array(refs_b)));
        steps.push(object(m));
        i += 1;
    }
    let policies = match extension_value(repo, &user_metadata.extensions, POLICY_EXTENSION) {
        Some(v) => v,
        None => JsonValue::Object(Vec::new()),
    };
    let overrides = match extension_value(repo, &user_metadata.extensions, DISCOVERY_EXTENSION) {
        Some(v) => v,
        None => JsonValue::Array(Vec::new()),
    };
    let state = match extension_value(repo, &user_metadata.extensions, STRUCTURAL_STATE_EXTENSION) {
        Some(v) => v,
        None => {
            let mut m: Vec<(String, JsonValue)> = Vec::new();
            m.push((owned("kind"), JsonValue::text("clean")));
            object(m)
        },
    };
    let mut symbolic: Vec<JsonValue> = Vec::new();
    if starts_with(metadata.target.as_str(), "refs/") {
        symbolic.push(JsonValue::text(metadata.target.as_str()));
    }
    let mut core: Vec<(String, JsonValue)> = Vec::new();
    core.push((owned("landing_policy"), match metadata.landing_policy {
        Some(p) => landing_policy_json(p),
        None => JsonValue::Null,
    }));
    core.push((owned("verification_policy"), match &metadata.verification_policy {
        Some(p) => verification_policy_json(p),
        None => JsonValue::Null,
    }));
    let mut extensions: Vec<(String, JsonValue)> = Vec::new();
    extensions.push((owned("git-staircase.core"), object(core)));
    match extension_value(repo, &user_metadata.extensions, GERRIT_EXTENSION) {
        Some(v) => extensions.push((owned(GERRIT_EXTENSION), v)),
        None => {},
    }
    match extension_value(repo, &user_metadata.extensions, GITHUB_EXTENSION) {
        Some(v) => extensions.push((owned(GITHUB_EXTENSION), v)),
        None => {},
    }
    let mut anchors: Vec<JsonValue> = Vec::new();
    anchors.push(typed_oid(fmt, target_oid.as_str()));
    let mut context: Vec<(String, JsonValue)> = Vec::new();
    context.push((owned("kind"), JsonValue::text("single-anchor")));
    context.push((owned("anchors"), JsonValue::Array(anchors)));
    context.push((owned("symbolic_targets"), JsonValue::Array(symbolic)));
    let mut layout: Vec<(String, JsonValue)> = Vec::new();
    layout.push((owned("kind"), match &metadata.primary_branch_layout {
        Some(k) => JsonValue::text(k.as_str()),
        None => JsonValue::text("none"),
    }));
    layout.push((owned("base"), match &metadata.branch_layout_base {
        Some(b) => JsonValue::text(b.as_str()),
        None => JsonValue::Null,
    }));
    let mut doc: Vec<(String, JsonValue)> = Vec::new();
    doc.push((owned("schema"), JsonValue::text("git-staircase/structure")));
    doc.push((owned("version"), JsonValue::Number(owned("1"))));
    doc.push((owned("kind"), JsonValue::text("linear")));
    doc.push((owned("object_format"), JsonValue::text(fmt)));
    doc.push((owned("lineage_id"), JsonValue::text(metadata.id.as_str())));
    doc.push((owned("integration_context"), object(context)));
    doc.push((owned("steps"), JsonValue::Array(steps)));
    doc.push((owned("structural_state"), state));
    doc.push((owned("layout"), object(layout)));
    doc.push((owned("policies"), policies));
    doc.push((owned("discovery_overrides"), overrides));
    doc.push((owned("extensions"), object(extensions)));
    doc.push((owned("parent_structure_revision_oid"), JsonValue::Null));
    let canonical = canonicalize(&object(doc));
    let mut text = crate::json_text::render_json(&canonical);
    text.append("\n");
    proof {
        reveal_strlit("\n");
    }
    Ok(text)
}

/// The structure document of `metadata` alone.
pub fn serialize_descriptor(repo: &GitRepo, metadata: &StaircaseMetadata) -> (r: Result<String>) {
    let user = StaircaseUserMetadata::default();
    serialize_structure(repo, metadata, &user)
}

} // verus!
