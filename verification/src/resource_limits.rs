//! Process resource limits for MCP server sandboxing: the configuration keys,
//! the validation and parsing of their values, and the list of limits that a
//! launched server process must get.

use std::collections::BTreeMap;
use vstd::prelude::*;

use crate::text::{is_digit, lemma_parsed_u64_shape, lemma_trim_idempotent, lemma_trim_unchanged, parse_u64, spec_parse_u64, spec_trim, str_eq, trim};

verus! {

/// Parsed resource-limit configuration.
#[derive(Debug)]
pub struct ResourceLimits {
    pub max_memory_bytes: Option<u64>,
    pub max_file_descriptors: Option<u64>,
}

impl Default for ResourceLimits {
    fn default() -> (r: Self)
        ensures
            r.max_memory_bytes is None,
            r.max_file_descriptors is None,
    {
        ResourceLimits { max_memory_bytes: None, max_file_descriptors: None }
    }
}

/// Config key of the address-space limit.
pub const KEY_MAX_MEMORY: &'static str = "berth.max-memory";

/// Config key of the open-file limit.
pub const KEY_MAX_FILE_DESCRIPTORS: &'static str = "berth.max-file-descriptors";

/// Whether `key` names one of the resource limits.
pub open spec fn spec_is_resource_limit_key(key: Seq<char>) -> bool {
    key == KEY_MAX_MEMORY@ || key == KEY_MAX_FILE_DESCRIPTORS@
}

/// Returns `true` if `key` is a recognised resource-limit config key.
pub fn is_resource_limit_key(key: &str) -> (r: bool)
    ensures
        r == spec_is_resource_limit_key(key@),
{
    str_eq(key, KEY_MAX_MEMORY) || str_eq(key, KEY_MAX_FILE_DESCRIPTORS)
}

/// Whether `s` ends in one of the unit suffixes `G`, `M` or `K`.
pub open spec fn has_unit_suffix(s: Seq<char>) -> bool {
    s.len() > 0 && (s.last() == 'G' || s.last() == 'M' || s.last() == 'K')
}

/// The factor that the last character of `s` stands for: a gibibyte, a
/// mebibyte, a kibibyte, or one byte when `s` has no unit suffix.
pub open spec fn memory_multiplier(s: Seq<char>) -> nat {
    if !has_unit_suffix(s) {
        1
    } else if s.last() == 'G' {
        1073741824
    } else if s.last() == 'M' {
        1048576
    } else {
        1024
    }
}

/// The number part of a trimmed memory value: the text before the unit
/// suffix, itself trimmed.
pub open spec fn memory_number_text(s: Seq<char>) -> Seq<char> {
    if has_unit_suffix(s) {
        spec_trim(s.drop_last())
    } else {
        spec_trim(s)
    }
}

/// The number of bytes that a memory value such as `512M` stands for, or
/// the error message for a value that is refused: a blank value, one whose
/// number does not parse, and one whose byte count does not fit in a `u64`.
pub open spec fn spec_memory_value(raw: Seq<char>) -> Result<u64, Seq<char>> {
    let s = spec_trim(raw);
    if s.len() == 0 {
        Err("Empty memory value"@)
    } else {
        match spec_parse_u64(memory_number_text(s)) {
            None => Err("Invalid memory value: "@ + s),
            Some(n) => if n * memory_multiplier(s) <= u64::MAX {
                Ok((n * memory_multiplier(s)) as u64)
            } else {
                Err("Invalid memory value: "@ + s)
            },
        }
    }
}

/// Parses a memory value with optional K/M/G suffix into bytes.
pub fn parse_memory_value(s: &str) -> (r: Result<u64, String>)
    ensures
        match r {
            Ok(v) => spec_memory_value(s@) == Ok::<u64, Seq<char>>(v),
            Err(e) => spec_memory_value(s@) == Err::<u64, Seq<char>>(e@),
        },
{
    let t = trim(s);
    if t.is_empty() {
        return Err(String::from_str("Empty memory value"));
    }
    let n = t.unicode_len();
    let last = t.get_char(n - 1);
    let (num_str, multiplier): (&str, u64) = if last == 'G' {
        (t.substring_char(0, n - 1), 1073741824)
    } else if last == 'M' {
        (t.substring_char(0, n - 1), 1048576)
    } else if last == 'K' {
        (t.substring_char(0, n - 1), 1024)
    } else {
        (t, 1)
    };
    assert(t@.drop_last() =~= t@.subrange(0, n - 1));
    let bytes = match parse_u64(trim(num_str)) {
        Some(num) => num.checked_mul(multiplier),
        None => None,
    };
    match bytes {
        Some(b) => Ok(b),
        None => {
            let mut e = String::from_str("Invalid memory value: ");
            e.append(t);
            Err(e)
        },
    }
}

/// The open-file limit that a value stands for: a positive integer, with
/// surrounding whitespace ignored.
pub open spec fn spec_fd_count(raw: Seq<char>) -> Option<u64> {
    match spec_parse_u64(spec_trim(raw)) {
        Some(n) => if n > 0 {
            Some(n)
        } else {
            None
        },
        None => None,
    }
}

/// Parses an open-file limit; zero is refused, the limit being a positive integer.
fn parse_fd_count(raw: &str) -> (r: Option<u64>)
    ensures
        r == spec_fd_count(raw@),
{
    match parse_u64(trim(raw)) {
        Some(n) => if n > 0 {
            Some(n)
        } else {
            None
        },
        None => None,
    }
}

/// What validation answers for a value of the config key `key`.
pub open spec fn spec_validate(key: Seq<char>, value: Seq<char>) -> Result<(), Seq<char>> {
    if key == KEY_MAX_MEMORY@ {
        match spec_memory_value(value) {
            Ok(_) => Ok(()),
            Err(e) => Err(e),
        }
    } else if key == KEY_MAX_FILE_DESCRIPTORS@ {
        match spec_fd_count(value) {
            Some(_) => Ok(()),
            None => Err("Invalid value for "@ + key + ": expected a positive integer"@),
        }
    } else {
        Ok(())
    }
}

/// Validates a resource-limit config value before persistence.
pub fn validate_resource_limit_value(key: &str, value: &str) -> (r: Result<(), String>)
    ensures
        match r {
            Ok(()) => spec_validate(key@, value@) == Ok::<(), Seq<char>>(()),
            Err(e) => spec_validate(key@, value@) == Err::<(), Seq<char>>(e@),
        },
{
    if str_eq(key, KEY_MAX_MEMORY) {
        match parse_memory_value(value) {
            Ok(_) => Ok(()),
            Err(e) => Err(e),
        }
    } else if str_eq(key, KEY_MAX_FILE_DESCRIPTORS) {
        match parse_fd_count(value) {
            Some(_) => Ok(()),
            None => {
                let mut e = String::from_str("Invalid value for ");
                e.append(key);
                e.append(": expected a positive integer");
                Err(e)
            },
        }
    } else {
        Ok(())
    }
}

/// Looks up `key` in a server config map with `BTreeMap::get`. The contract
/// states the lookup over the map's contents taken by their views.
#[verifier::external_body]
fn config_get<'a>(config: &'a BTreeMap<String, String>, key: &str) -> (r: Option<&'a String>)
    ensures
        match r {
            Some(v) => config.deep_view().contains_key(key@) && config.deep_view()[key@] == v@,
            None => !config.deep_view().contains_key(key@),
        },
{
    config.get(key)
}

/// The value of `key` in `m` when it is there and not blank.
pub open spec fn set_value(m: Map<Seq<char>, Seq<char>>, key: Seq<char>) -> Option<Seq<char>> {
    if m.contains_key(key) && spec_trim(m[key]).len() > 0 {
        Some(m[key])
    } else {
        None
    }
}

/// The memory limit that a config map sets, or the error for its value.
pub open spec fn spec_memory_entry(m: Map<Seq<char>, Seq<char>>) -> Result<Option<u64>, Seq<char>> {
    match set_value(m, KEY_MAX_MEMORY@) {
        None => Ok(None),
        Some(v) => match spec_memory_value(v) {
            Ok(x) => Ok(Some(x)),
            Err(e) => Err(e),
        },
    }
}

/// The open-file limit that a config map sets, or the error for its value.
pub open spec fn spec_fd_entry(m: Map<Seq<char>, Seq<char>>) -> Result<Option<u64>, Seq<char>> {
    match set_value(m, KEY_MAX_FILE_DESCRIPTORS@) {
        None => Ok(None),
        Some(v) => match spec_fd_count(v) {
            Some(n) => Ok(Some(n)),
            None => Err("Invalid value for "@ + KEY_MAX_FILE_DESCRIPTORS@ + ": "@ + v),
        },
    }
}

/// The limits that a config map sets, `(memory, open files)`, or the error
/// of the first key whose value is refused, the memory key first.
pub open spec fn spec_resource_limits(m: Map<Seq<char>, Seq<char>>) -> Result<
    (Option<u64>, Option<u64>),
    Seq<char>,
> {
    match spec_memory_entry(m) {
        Err(e) => Err(e),
        Ok(mem) => match spec_fd_entry(m) {
            Err(e) => Err(e),
            Ok(fds) => Ok((mem, fds)),
        },
    }
}

/// Parses resource limits from a server config map.
pub fn parse_resource_limits(config: &BTreeMap<String, String>) -> (r: Result<ResourceLimits, String>)
    ensures
        match (r, spec_resource_limits(config.deep_view())) {
            (Ok(l), Ok((mem, fds))) => l.max_memory_bytes == mem && l.max_file_descriptors == fds,
            (Err(e), Err(x)) => e@ == x,
            _ => false,
        },
{
    let ghost m = config.deep_view();
    let max_memory_bytes = match config_get(config, KEY_MAX_MEMORY) {
        Some(v) => if trim(v.as_str()).is_empty() {
            None
        } else {
            match parse_memory_value(v.as_str()) {
                Ok(x) => Some(x),
                Err(e) => {
                    return Err(e);
                },
            }
        },
        None => None,
    };
    let max_file_descriptors = match config_get(config, KEY_MAX_FILE_DESCRIPTORS) {
        Some(v) => if trim(v.as_str()).is_empty() {
            None
        } else {
            match parse_fd_count(v.as_str()) {
                Some(n) => Some(n),
                None => {
                    let mut e = String::from_str("Invalid value for ");
                    e.append(KEY_MAX_FILE_DESCRIPTORS);
                    e.append(": ");
                    e.append(v.as_str());
                    return Err(e);
                },
            }
        },
        None => None,
    };
    Ok(ResourceLimits { max_memory_bytes, max_file_descriptors })
}

/// A process resource that a limit applies to.
#[derive(Debug, Clone, Copy, PartialEq, Eq, Structural)]
pub enum LimitedResource {
    /// The address space (`RLIMIT_AS`), limited by `berth.max-memory`.
    AddressSpace,
    /// The number of open files (`RLIMIT_NOFILE`), limited by `berth.max-file-descriptors`.
    OpenFiles,
}

/// One limit to set on a launched process: soft and hard limit alike.
#[derive(Debug, Clone, Copy, PartialEq, Eq, Structural)]
pub struct LimitRequest {
    pub resource: LimitedResource,
    pub value: u64,
}

/// The limits that `limits` asks for, in the order they are applied.
pub open spec fn spec_limit_plan(limits: ResourceLimits) -> Seq<LimitRequest> {
    let mem = match limits.max_memory_bytes {
        Some(b) => seq![LimitRequest { resource: LimitedResource::AddressSpace, value: b }],
        None => Seq::empty(),
    };
    let fds = match limits.max_file_descriptors {
        Some(n) => seq![LimitRequest { resource: LimitedResource::OpenFiles, value: n }],
        None => Seq::empty(),
    };
    mem + fds
}

/// Lists the limits to set on a server process before it runs: the memory
/// limit first, then the open-file limit; empty when neither is configured.
pub fn limit_plan(limits: &ResourceLimits) -> (r: Vec<LimitRequest>)
    ensures
        r@ == spec_limit_plan(*limits),
{
    let mut plan: Vec<LimitRequest> = Vec::new();
    if let Some(b) = limits.max_memory_bytes {
        plan.push(LimitRequest { resource: LimitedResource::AddressSpace, value: b });
    }
    if let Some(n) = limits.max_file_descriptors {
        plan.push(LimitRequest { resource: LimitedResource::OpenFiles, value: n });
    }
    assert(plan@ =~= spec_limit_plan(*limits));
    plan
}

/// A present value of a limit key passes validation exactly when
/// `parse_resource_limits` reads it as a set limit rather than refusing it;
/// the byte count or file count it stands for is the same in both.
pub proof fn lemma_validation_agrees_with_parsing(m: Map<Seq<char>, Seq<char>>, key: Seq<char>)
    requires
        spec_is_resource_limit_key(key),
        m.contains_key(key),
        spec_trim(m[key]).len() > 0,
    ensures
        key == KEY_MAX_MEMORY@ ==> (spec_validate(key, m[key]) is Ok <==> spec_memory_entry(m) is Ok),
        key == KEY_MAX_MEMORY@ ==> (spec_memory_value(m[key]) matches Ok(v)
            ==> spec_memory_entry(m) == Ok::<Option<u64>, Seq<char>>(Some(v))),
        key == KEY_MAX_FILE_DESCRIPTORS@ ==> (spec_validate(key, m[key]) is Ok
            <==> spec_fd_entry(m) is Ok),
        key == KEY_MAX_FILE_DESCRIPTORS@ ==> (spec_fd_count(m[key]) matches Some(n)
            ==> spec_fd_entry(m) == Ok::<Option<u64>, Seq<char>>(Some(n))),
{
    lemma_limit_keys_differ();
}

proof fn lemma_limit_keys_differ()
    ensures
        KEY_MAX_MEMORY@ != KEY_MAX_FILE_DESCRIPTORS@,
{
    reveal_strlit("berth.max-memory");
    reveal_strlit("berth.max-file-descriptors");
    assert(KEY_MAX_MEMORY@.len() != KEY_MAX_FILE_DESCRIPTORS@.len());
}

/// Validating a memory value answers what parsing it answers: `Ok` exactly
/// when it parses, and the same error message otherwise.
pub proof fn lemma_validate_memory_is_parse(value: Seq<char>)
    ensures
        spec_validate(KEY_MAX_MEMORY@, value) == match spec_memory_value(value) {
            Ok(_) => Ok::<(), Seq<char>>(()),
            Err(e) => Err(e),
        },
{
}

/// Surrounding whitespace does not change what a memory value stands for:
/// the value and its trimmed text give the same byte count or the same error.
pub proof fn lemma_memory_value_ignores_surrounding_whitespace(s: Seq<char>)
    ensures
        spec_memory_value(spec_trim(s)) == spec_memory_value(s),
{
    lemma_trim_idempotent(s);
}

/// Settings other than the two limit keys do not change what
/// `parse_resource_limits` answers.
pub proof fn lemma_other_keys_ignored(m1: Map<Seq<char>, Seq<char>>, m2: Map<Seq<char>, Seq<char>>)
    requires
        forall|k: Seq<char>|
            spec_is_resource_limit_key(k) ==> (m1.contains_key(k) == m2.contains_key(k) && (
            m1.contains_key(k) ==> m1[k] == m2[k])),
    ensures
        spec_resource_limits(m1) == spec_resource_limits(m2),
{
    assert(spec_is_resource_limit_key(KEY_MAX_MEMORY@));
    assert(spec_is_resource_limit_key(KEY_MAX_FILE_DESCRIPTORS@));
}

/// A config map whose limit values all passed validation is parsed without
/// error.
pub proof fn lemma_validated_config_parses(m: Map<Seq<char>, Seq<char>>)
    requires
        forall|k: Seq<char>|
            spec_is_resource_limit_key(k) && m.contains_key(k) && spec_trim(m[k]).len() > 0
                ==> #[trigger] spec_validate(k, m[k]) is Ok,
    ensures
        spec_resource_limits(m) is Ok,
{
    lemma_limit_keys_differ();
    if m.contains_key(KEY_MAX_MEMORY@) && spec_trim(m[KEY_MAX_MEMORY@]).len() > 0 {
        assert(spec_validate(KEY_MAX_MEMORY@, m[KEY_MAX_MEMORY@]) is Ok);
    }
    if m.contains_key(KEY_MAX_FILE_DESCRIPTORS@) && spec_trim(m[KEY_MAX_FILE_DESCRIPTORS@]).len() > 0 {
        assert(spec_validate(KEY_MAX_FILE_DESCRIPTORS@, m[KEY_MAX_FILE_DESCRIPTORS@]) is Ok);
    }
}

/// The recognised keys are exactly `berth.max-memory` and
/// `berth.max-file-descriptors`; every other key, `berth.max-restarts`
/// among them, is not a resource-limit key.
pub proof fn lemma_limit_keys_exactly(key: Seq<char>)
    ensures
        spec_is_resource_limit_key(key) <==> (key == "berth.max-memory"@ || key
            == "berth.max-file-descriptors"@),
{
}

/// A number followed by a unit suffix stands for the number times the
/// unit: 1024 for `K`, 1024 * 1024 for `M`, 1024 * 1024 * 1024 for `G`,
/// whenever that product fits in a `u64`; it is refused otherwise. A number
/// with no suffix stands for itself.
pub proof fn lemma_memory_units(d: Seq<char>, n: u64, unit: char)
    requires
        spec_parse_u64(d) == Some(n),
        unit == 'K' || unit == 'M' || unit == 'G',
    ensures
        spec_memory_value(d) == Ok::<u64, Seq<char>>(n),
        ({
            let f: int = if unit == 'K' {
                1024
            } else if unit == 'M' {
                1048576
            } else {
                1073741824
            };
            &&& n * f <= u64::MAX ==> spec_memory_value(d.push(unit)) == Ok::<u64, Seq<char>>(
                (n * f) as u64,
            )
            &&& n * f > u64::MAX ==> spec_memory_value(d.push(unit)) is Err
        }),
{
    lemma_parsed_u64_shape(d);
    lemma_trim_unchanged(d);
    let s = d.push(unit);
    assert(s[0] == d[0]);
    lemma_trim_unchanged(s);
    assert(s.drop_last() =~= d);
    assert(!is_digit(unit));
}

/// An open-file limit is what `str::parse::<u64>` reads from the trimmed
/// value, for every positive number up to `u64::MAX`; validation accepts
/// exactly those values.
pub proof fn lemma_fd_count_is_positive_u64(raw: Seq<char>)
    ensures
        forall|n: u64|
            spec_parse_u64(spec_trim(raw)) == Some(n) && n > 0 ==> spec_fd_count(raw) == Some(n),
        forall|n: u64|
            spec_fd_count(raw) == Some(n) ==> spec_parse_u64(spec_trim(raw)) == Some(n) && n > 0,
        spec_validate(KEY_MAX_FILE_DESCRIPTORS@, raw) is Ok <==> (spec_parse_u64(spec_trim(raw)) is Some
            && spec_parse_u64(spec_trim(raw))->0 > 0),
{
    lemma_limit_keys_differ();
}

/// A config map whose open-file value is a positive number (and whose
/// memory value, if any, parses) yields that number as the open-file limit.
pub proof fn lemma_fd_limit_read_back(m: Map<Seq<char>, Seq<char>>, n: u64)
    requires
        m.contains_key(KEY_MAX_FILE_DESCRIPTORS@),
        spec_parse_u64(spec_trim(m[KEY_MAX_FILE_DESCRIPTORS@])) == Some(n),
        n > 0,
        spec_memory_entry(m) is Ok,
    ensures
        spec_resource_limits(m) matches Ok((_, fds)) && fds == Some(n),
{
    lemma_parsed_u64_shape(spec_trim(m[KEY_MAX_FILE_DESCRIPTORS@]));
}

/// Every configured limit is applied and nothing else: the memory limit,
/// when set, is the first request, on the address space, with its byte
/// count; the open-file limit, when set, is the last, on open files, with
/// its count; each request comes from one of the two settings.
pub proof fn lemma_limit_plan_applies_settings(limits: ResourceLimits)
    ensures
        ({
            let p = spec_limit_plan(limits);
            &&& p.len() == (if limits.max_memory_bytes is Some {
                1int
            } else {
                0
            }) + (if limits.max_file_descriptors is Some {
                1int
            } else {
                0
            })
            &&& limits.max_memory_bytes matches Some(b) ==> p[0] == LimitRequest {
                resource: LimitedResource::AddressSpace,
                value: b,
            }
            &&& limits.max_file_descriptors matches Some(n) ==> p[p.len() - 1] == LimitRequest {
                resource: LimitedResource::OpenFiles,
                value: n,
            }
            &&& forall|i: int|
                0 <= i < p.len() ==> match (#[trigger] p[i]).resource {
                    LimitedResource::AddressSpace => limits.max_memory_bytes == Some(p[i].value),
                    LimitedResource::OpenFiles => limits.max_file_descriptors == Some(p[i].value),
                }
        }),
{
}

} // verus!
