//! The rule engine: a script assigns each device an ordering key and, per
//! device type, a connection name.
use vstd::prelude::*;
use rhai::{Array, Engine, Scope};
use crate::json::{device_json, device_to_json, opt_view};
use crate::model::NetDevice;

verus! {

/// The limits a call of the rule script runs under, in the order: the most
/// operations; the longest string, array or object; the deepest nesting of
/// function calls; the deepest nesting of expressions at top level and
/// inside functions. A call over a limit fails.
pub type Limits = (u64, usize, usize, usize, usize);

/// What a rule script returns for a device from its classifying function,
/// given the script text, the function's name, the device's JSON text and
/// the limits the call runs under: the integer under `type_ord` in the
/// object it returns, or `None` where the script does not compile, fails,
/// exceeds a limit or returns no such integer.
pub uninterp spec fn script_type_ord(script: Seq<char>, entry: Seq<char>, device: Seq<char>, limits: Limits) -> Option<i64>;

/// What a rule script returns from its naming function, given the script
/// text, the function's name, the JSON texts of a group of devices, their
/// device type and the limits the call runs under: the string under
/// `con_name` of each element of the array it returns, or `None` where the
/// script does not compile, fails, exceeds a limit, or an element has no
/// such string.
pub uninterp spec fn script_con_names(
    script: Seq<char>,
    entry: Seq<char>,
    devices: Seq<Seq<char>>,
    device_type: Seq<char>,
    limits: Limits,
) -> Option<Seq<Seq<char>>>;

/// The most operations a call of the rule script may run.
pub const SCRIPT_OPERATIONS: u64 = 1000000;

/// The longest string, array or object a call of the rule script may build.
pub const SCRIPT_SIZE: usize = 1000000;

/// The deepest nesting of function calls in a call of the rule script.
pub const SCRIPT_CALL_LEVELS: usize = 8;

/// The deepest nesting of expressions at the top level of the rule script.
pub const SCRIPT_EXPR_DEPTH: usize = 32;

/// The deepest nesting of expressions inside functions of the rule script.
pub const SCRIPT_FUNCTION_EXPR_DEPTH: usize = 16;

/// The limits every call of the rule script runs under. The script runs
/// without clock or sleep functions; a script that needs them, or that
/// goes over these limits, fails.
pub open spec fn script_limits() -> Limits {
    (SCRIPT_OPERATIONS, SCRIPT_SIZE, SCRIPT_CALL_LEVELS, SCRIPT_EXPR_DEPTH, SCRIPT_FUNCTION_EXPR_DEPTH)
}

pub open spec fn limits_set(l: Limits) -> bool {
    l.0 > 0 && l.1 > 0 && l.2 > 0 && l.3 > 0 && l.4 > 0
}

fn limits() -> (r: Limits)
    ensures
        r == script_limits(),
        limits_set(r),
{
    (SCRIPT_OPERATIONS, SCRIPT_SIZE, SCRIPT_CALL_LEVELS, SCRIPT_EXPR_DEPTH, SCRIPT_FUNCTION_EXPR_DEPTH)
}

/// Relies on rhai's `Engine::new`, built without the standard library (so
/// without clock and sleep functions); on `set_max_operations`,
/// `set_max_string_size`, `set_max_array_size`, `set_max_map_size`,
/// `set_max_call_levels` and `set_max_expr_depths`, which replace every
/// limit whose default depends on the build (a run over a limit fails); and
/// on `Engine::compile`, `Engine::parse_json` and `Engine::call_fn`: the
/// script is compiled, the device object parsed and handed to the function
/// named `entry`, and `type_ord` read from the object that comes back.
#[verifier::external_body]
fn eval_type_ord(script: &str, entry: &str, device: &str, limits: Limits) -> (r: Option<i64>)
    requires
        limits_set(limits),
    ensures
        r == script_type_ord(script@, entry@, device@, limits),
{
    let (ops, size, calls, depth, fn_depth) = limits;
    let mut engine = Engine::new();
    engine.set_max_operations(ops).set_max_string_size(size).set_max_array_size(size).set_max_map_size(size)
        .set_max_call_levels(calls).set_max_expr_depths(depth, fn_depth);
    let ast = engine.compile(script).ok()?;
    let arg = engine.parse_json(device, true).ok()?;
    let out: rhai::Map = engine.call_fn(&mut Scope::new(), &ast, entry, (arg,)).ok()?;
    out.get("type_ord")?.as_int().ok()
}

/// Relies on rhai's `Engine::new`, built without the standard library (so
/// without clock and sleep functions); on `set_max_operations`,
/// `set_max_string_size`, `set_max_array_size`, `set_max_map_size`,
/// `set_max_call_levels` and `set_max_expr_depths`, which replace every
/// limit whose default depends on the build (a run over a limit fails); and
/// on `Engine::compile`, `Engine::parse_json` and `Engine::call_fn`: the
/// script is compiled, the device objects parsed into an array and handed
/// with the device type to the function named `entry`, and `con_name` read
/// from each object of the array that comes back.
#[verifier::external_body]
fn eval_con_names(script: &str, entry: &str, devices: &Vec<String>, device_type: &str, limits: Limits) -> (r: Option<Vec<String>>)
    requires
        limits_set(limits),
    ensures
        r is None <==> script_con_names(script@, entry@, devices.deep_view(), device_type@, limits) is None,
        r matches Some(v) ==> script_con_names(script@, entry@, devices.deep_view(), device_type@, limits)
            == Some(v.deep_view()),
{
    let (ops, size, calls, depth, fn_depth) = limits;
    let mut engine = Engine::new();
    engine.set_max_operations(ops).set_max_string_size(size).set_max_array_size(size).set_max_map_size(size)
        .set_max_call_levels(calls).set_max_expr_depths(depth, fn_depth);
    let ast = engine.compile(script).ok()?;
    let args: Option<Array> = devices.iter().map(|d| engine.parse_json(d, true).map(Into::into).ok()).collect();
    let out: Array = engine.call_fn(&mut Scope::new(), &ast, entry, (args?, device_type.to_string())).ok()?;
    out.into_iter().map(|d| d.as_map_ref().ok()?.get("con_name")?.clone().into_string().ok()).collect()
}

/// Why the rules could not be applied.
#[derive(Debug, PartialEq, Eq, Structural)]
pub enum RuleError {
    /// The classifying function failed on a device.
    ClassifyFailed,
    /// The naming function failed on a device type, or did not name each
    /// device of the group once.
    NamingFailed,
}

/// A device with the ordering key that the rules gave it.
pub struct ClassifiedDevice {
    pub device: NetDevice,
    pub type_ord: i64,
}

/// A device with its ordering key and the connection name it should have.
pub struct DesiredDevice {
    pub device: NetDevice,
    pub type_ord: i64,
    pub con_name: String,
}

pub open spec fn classify_entry() -> Seq<char> {
    "insert_nic_type_ord"@
}

pub open spec fn naming_entry() -> Seq<char> {
    "modify_connections"@
}

/// The ordering key the script gives a device.
pub open spec fn type_ord_of(script: Seq<char>, d: NetDevice) -> Option<i64> {
    script_type_ord(script, classify_entry(), device_json(d, None), script_limits())
}

/// Runs the classifying function `insert_nic_type_ord` of the rule script on
/// each device.
///
/// The script runs without clock or sleep functions and under
/// `script_limits()`: at most a million operations, strings, arrays and
/// objects of at most a million elements, function calls nested at most 8
/// deep and expressions at most 32 deep (16 inside functions). A script
/// that needs more fails here, even where an engine with other limits
/// would run it.
pub fn insert_nic_ord_types(script: &str, devices: Vec<NetDevice>) -> (r: Result<Vec<ClassifiedDevice>, RuleError>)
    ensures
        r is Ok <==> forall|i: int| 0 <= i < devices@.len() ==> type_ord_of(script@, #[trigger] devices@[i]) is Some,
        r is Err ==> r == Err::<Vec<ClassifiedDevice>, RuleError>(RuleError::ClassifyFailed),
        r matches Ok(v) ==> v@.len() == devices@.len() && forall|i: int| 0 <= i < v@.len() ==> {
            &&& (#[trigger] v@[i]).device == devices@[i]
            &&& type_ord_of(script@, devices@[i]) == Some(v@[i].type_ord)
        },
{
    let ghost all = devices@;
    let mut rest = devices;
    let mut out: Vec<ClassifiedDevice> = Vec::new();
    while rest.len() > 0
        invariant
            all == devices@,
            out@.len() + rest@.len() == all.len(),
            rest@ == all.subrange(out@.len() as int, all.len() as int),
            forall|i: int| 0 <= i < out@.len() ==> {
                &&& (#[trigger] out@[i]).device == all[i]
                &&& type_ord_of(script@, all[i]) == Some(out@[i].type_ord)
            },
        decreases rest@.len(),
    {
        let d = rest.remove(0);
        let text = device_to_json(&d, None);
        match eval_type_ord(script, "insert_nic_type_ord", text.as_str(), limits()) {
            Some(k) => {
                out.push(ClassifiedDevice { device: d, type_ord: k });
            },
            None => {
                assert(all[out@.len() as int] == d);
                assert(type_ord_of(script@, devices@[out@.len() as int]) is None);
                return Err(RuleError::ClassifyFailed);
            },
        }
    }
    assert forall|i: int| 0 <= i < devices@.len() implies type_ord_of(script@, #[trigger] devices@[i]) is Some by {
        assert(out@[i].device == all[i]);
    }
    Ok(out)
}

/// The text by which devices of equal key are ordered: the `id_path`, or
/// the empty string.
pub open spec fn id_key(d: ClassifiedDevice) -> Seq<char> {
    match d.device.id_path {
        Some(p) => p@,
        None => Seq::empty(),
    }
}

/// Lexicographic order of texts by code point: `a` is a proper prefix of
/// `b`, or they first differ where `a` has the smaller character.
pub open spec fn lex_lt(a: Seq<char>, b: Seq<char>) -> bool {
    exists|k: int| #![trigger a.subrange(0, k)]
        0 <= k <= a.len() && k <= b.len() && a.subrange(0, k) == b.subrange(0, k) && (
        (k == a.len() && k < b.len()) || (k < a.len() && k < b.len() && (a[k] as u32) < (b[k] as u32)))
}

/// `a` sorts before `b`: smaller ordering key, or equal keys and smaller
/// `id_path`.
pub open spec fn key_lt(a: ClassifiedDevice, b: ClassifiedDevice) -> bool {
    a.type_ord < b.type_ord || (a.type_ord == b.type_ord && lex_lt(id_key(a), id_key(b)))
}

/// `x` placed into `s` after every element that does not sort after it.
pub open spec fn insert_sorted(s: Seq<ClassifiedDevice>, x: ClassifiedDevice) -> Seq<ClassifiedDevice>
    decreases s.len(),
{
    if s.len() == 0 {
        seq![x]
    } else if key_lt(x, s.last()) {
        insert_sorted(s.drop_last(), x).push(s.last())
    } else {
        s.push(x)
    }
}

/// The stable sort of `s` by `key_lt`.
pub open spec fn stable_sort(s: Seq<ClassifiedDevice>) -> Seq<ClassifiedDevice>
    decreases s.len(),
{
    if s.len() == 0 {
        Seq::empty()
    } else {
        insert_sorted(stable_sort(s.drop_last()), s.last())
    }
}

fn str_lt(a: &str, b: &str) -> (r: bool)
    ensures
        r == lex_lt(a@, b@),
{
    let n = a.unicode_len();
    let m = b.unicode_len();
    let mut i: usize = 0;
    while i < n && i < m
        invariant
            n == a@.len(),
            m == b@.len(),
            i <= n,
            i <= m,
            a@.subrange(0, i as int) == b@.subrange(0, i as int),
        decreases n - i,
    {
        let c = a.get_char(i);
        let d = b.get_char(i);
        if c != d {
            proof {
                if (c as u32) < (d as u32) {
                    assert(a@.subrange(0, i as int) == b@.subrange(0, i as int));
                } else {
                    assert forall|k: int| 0 <= k <= a@.len() && k <= b@.len() && #[trigger] a@.subrange(0, k) == b@.subrange(0, k)
                        implies !((k == a@.len() && k < b@.len()) || (k < a@.len() && k < b@.len() && (a@[k] as u32) < (b@[k] as u32))) by {
                        if k > i {
                            assert(a@.subrange(0, k)[i as int] == b@.subrange(0, k)[i as int]);
                        } else if k < i {
                            assert(a@.subrange(0, i as int)[k] == b@.subrange(0, i as int)[k]);
                        }
                    }
                }
            }
            return (c as u32) < (d as u32);
        }
        assert(a@.subrange(0, i + 1) =~= a@.subrange(0, i as int).push(c));
        assert(b@.subrange(0, i + 1) =~= b@.subrange(0, i as int).push(d));
        i = i + 1;
    }
    proof {
        if i == n && i < m {
            assert(a@.subrange(0, i as int) == b@.subrange(0, i as int));
        } else {
            assert forall|k: int| 0 <= k <= a@.len() && k <= b@.len() && #[trigger] a@.subrange(0, k) == b@.subrange(0, k)
                implies !((k == a@.len() && k < b@.len()) || (k < a@.len() && k < b@.len() && (a@[k] as u32) < (b@[k] as u32))) by {
                if k < i {
                    assert(a@.subrange(0, i as int)[k] == b@.subrange(0, i as int)[k]);
                }
            }
        }
    }
    i == n && i < m
}

fn id_text(d: &ClassifiedDevice) -> (r: &str)
    ensures
        r@ == id_key(*d),
{
    match &d.device.id_path {
        Some(p) => p.as_str(),
        None => {
            proof { reveal_strlit(""); }
            ""
        },
    }
}

fn sorts_before(a: &ClassifiedDevice, b: &ClassifiedDevice) -> (r: bool)
    ensures
        r == key_lt(*a, *b),
{
    a.type_ord < b.type_ord || (a.type_ord == b.type_ord && str_lt(id_text(a), id_text(b)))
}

proof fn lemma_insert_at(s: Seq<ClassifiedDevice>, x: ClassifiedDevice, p: int)
    requires
        0 <= p <= s.len(),
        forall|k: int| p <= k < s.len() ==> key_lt(x, #[trigger] s[k]),
        p > 0 ==> !key_lt(x, s[p - 1]),
    ensures
        insert_sorted(s, x) == s.insert(p, x),
    decreases s.len(),
{
    if s.len() == 0 {
        assert(s.insert(p, x) =~= seq![x]);
    } else if p == s.len() {
        assert(s.insert(p, x) =~= s.push(x));
    } else {
        assert(key_lt(x, s[s.len() - 1]));
        lemma_insert_at(s.drop_last(), x, p);
        assert(s.insert(p, x) =~= s.drop_last().insert(p, x).push(s.last()));
    }
}

/// Sorts classified devices stably by ordering key, then by `id_path`
/// (an absent one counting as the empty string).
pub fn sort_classified(devices: Vec<ClassifiedDevice>) -> (r: Vec<ClassifiedDevice>)
    ensures
        r@ == stable_sort(devices@),
{
    let mut rest = devices;
    let mut out: Vec<ClassifiedDevice> = Vec::new();
    let ghost all = rest@;
    let ghost done: int = 0;
    while rest.len() > 0
        invariant
            0 <= done <= all.len(),
            rest@ == all.subrange(done, all.len() as int),
            out@ == stable_sort(all.subrange(0, done)),
        decreases rest@.len(),
    {
        let x = rest.remove(0);
        let mut p: usize = out.len();
        while p > 0 && sorts_before(&x, &out[p - 1])
            invariant
                p <= out@.len(),
                forall|k: int| p <= k < out@.len() ==> key_lt(x, #[trigger] out@[k]),
            decreases p,
        {
            p = p - 1;
        }
        proof {
            lemma_insert_at(out@, x, p as int);
            assert(all.subrange(0, done + 1).drop_last() =~= all.subrange(0, done));
            assert(all.subrange(0, done + 1).last() == x);
            done = done + 1;
        }
        out.insert(p, x);
    }
    assert(all.subrange(0, done) =~= all);
    out
}

/// Classifies the devices with the rule script and sorts them.
pub fn sort_devices(script: &str, devices: Vec<NetDevice>) -> (r: Result<Vec<ClassifiedDevice>, RuleError>)
    ensures
        r is Ok <==> forall|i: int| 0 <= i < devices@.len() ==> type_ord_of(script@, #[trigger] devices@[i]) is Some,
        r is Err ==> r == Err::<Vec<ClassifiedDevice>, RuleError>(RuleError::ClassifyFailed),
        r matches Ok(v) ==> exists|c: Seq<ClassifiedDevice>| {
            &&& #[trigger] stable_sort(c) == v@
            &&& c.len() == devices@.len()
            &&& forall|i: int| 0 <= i < c.len() ==> (#[trigger] c[i]).device == devices@[i]
                && type_ord_of(script@, devices@[i]) == Some(c[i].type_ord)
        },
{
    match insert_nic_ord_types(script, devices) {
        Ok(v) => {
            let ghost c = v@;
            let sorted = sort_classified(v);
            assert(stable_sort(c) == sorted@);
            Ok(sorted)
        },
        Err(e) => Err(e),
    }
}

/// No device of `s` sorts before one that precedes it.
pub open spec fn sorted_by_key(s: Seq<ClassifiedDevice>) -> bool {
    forall|i: int, j: int| 0 <= i < j < s.len() ==> !key_lt(#[trigger] s[j], #[trigger] s[i])
}

proof fn lemma_lex_trans(a: Seq<char>, b: Seq<char>, c: Seq<char>)
    requires
        lex_lt(a, b),
        lex_lt(b, c),
    ensures
        lex_lt(a, c),
{
    let k1 = choose|k: int| #![trigger a.subrange(0, k)]
        0 <= k <= a.len() && k <= b.len() && a.subrange(0, k) == b.subrange(0, k) && (
        (k == a.len() && k < b.len()) || (k < a.len() && k < b.len() && (a[k] as u32) < (b[k] as u32)));
    let k2 = choose|k: int| #![trigger b.subrange(0, k)]
        0 <= k <= b.len() && k <= c.len() && b.subrange(0, k) == c.subrange(0, k) && (
        (k == b.len() && k < c.len()) || (k < b.len() && k < c.len() && (b[k] as u32) < (c[k] as u32)));
    let k = if k1 < k2 { k1 } else { k2 };
    assert(a.subrange(0, k) =~= b.subrange(0, k1).subrange(0, k));
    assert(c.subrange(0, k) =~= b.subrange(0, k2).subrange(0, k));
    assert(a.subrange(0, k) =~= c.subrange(0, k));
    if k1 < k2 {
        assert(b.subrange(0, k2)[k1] == c.subrange(0, k2)[k1]);
    } else if k2 < k1 {
        assert(a.subrange(0, k1)[k2] == b.subrange(0, k1)[k2]);
    }
}

proof fn lemma_lex_total(a: Seq<char>, b: Seq<char>, i: int)
    requires
        0 <= i <= a.len(),
        i <= b.len(),
        a.subrange(0, i) == b.subrange(0, i),
    ensures
        lex_lt(a, b) || lex_lt(b, a) || a == b,
    decreases a.len() - i,
{
    if i == a.len() && i == b.len() {
        assert(a =~= a.subrange(0, i));
        assert(b =~= b.subrange(0, i));
    } else if i == a.len() || i == b.len() || a[i] != b[i] {
        if i < a.len() && i < b.len() {
            vstd::utf8::char_u32_cast(a[i], a[i] as u32);
            vstd::utf8::char_u32_cast(b[i], b[i] as u32);
            assert((a[i] as u32) != (b[i] as u32));
        }
        assert(b.subrange(0, i) == a.subrange(0, i));
    } else {
        assert(a.subrange(0, i + 1) =~= a.subrange(0, i).push(a[i]));
        assert(b.subrange(0, i + 1) =~= b.subrange(0, i).push(b[i]));
        lemma_lex_total(a, b, i + 1);
    }
}

proof fn lemma_key_order(a: ClassifiedDevice, b: ClassifiedDevice, c: ClassifiedDevice)
    ensures
        !key_lt(a, a),
        !key_lt(b, a) && !key_lt(c, b) ==> !key_lt(c, a),
        key_lt(a, b) ==> !key_lt(b, a),
{
    if key_lt(a, b) && key_lt(b, a) {
        lemma_lex_trans(id_key(a), id_key(b), id_key(a));
    }
    if !key_lt(b, a) && !key_lt(c, b) && key_lt(c, a) {
        assert(id_key(a).subrange(0, 0) =~= id_key(b).subrange(0, 0));
        assert(id_key(b).subrange(0, 0) =~= id_key(c).subrange(0, 0));
        lemma_lex_total(id_key(a), id_key(b), 0);
        lemma_lex_total(id_key(b), id_key(c), 0);
        if lex_lt(id_key(a), id_key(b)) {
            lemma_lex_trans(id_key(c), id_key(a), id_key(b));
        }
        if lex_lt(id_key(b), id_key(c)) {
            lemma_lex_trans(id_key(b), id_key(c), id_key(a));
        }
        if lex_lt(id_key(a), id_key(b)) && lex_lt(id_key(b), id_key(c)) {
            lemma_lex_trans(id_key(a), id_key(b), id_key(c));
            lemma_lex_trans(id_key(a), id_key(c), id_key(a));
        }
    }
}

proof fn lemma_insert_bounded(s: Seq<ClassifiedDevice>, x: ClassifiedDevice, b: ClassifiedDevice)
    requires
        forall|k: int| 0 <= k < s.len() ==> !key_lt(b, #[trigger] s[k]),
        !key_lt(b, x),
    ensures
        insert_sorted(s, x).len() == s.len() + 1,
        forall|k: int| 0 <= k < insert_sorted(s, x).len() ==> !key_lt(b, #[trigger] insert_sorted(s, x)[k]),
    decreases s.len(),
{
    if s.len() > 0 && key_lt(x, s.last()) {
        lemma_insert_bounded(s.drop_last(), x, b);
        let t = insert_sorted(s.drop_last(), x);
        assert forall|k: int| 0 <= k < t.push(s.last()).len() implies !key_lt(b, #[trigger] t.push(s.last())[k]) by {
            if k < t.len() {
                assert(t.push(s.last())[k] == t[k]);
            }
        }
    } else if s.len() > 0 {
        assert forall|k: int| 0 <= k < s.push(x).len() implies !key_lt(b, #[trigger] s.push(x)[k]) by {
            if k < s.len() {
                assert(s.push(x)[k] == s[k]);
            }
        }
    }
}

proof fn lemma_insert_keeps_order(s: Seq<ClassifiedDevice>, x: ClassifiedDevice)
    requires
        sorted_by_key(s),
    ensures
        sorted_by_key(insert_sorted(s, x)),
        insert_sorted(s, x).len() == s.len() + 1,
    decreases s.len(),
{
    if s.len() == 0 {
    } else if key_lt(x, s.last()) {
        let t = s.drop_last();
        let last = s.last();
        lemma_insert_keeps_order(t, x);
        lemma_key_order(x, last, x);
        assert forall|k: int| 0 <= k < t.len() implies !key_lt(last, #[trigger] t[k]) by {
            assert(s[k] == t[k]);
            assert(s[s.len() - 1] == last);
        }
        lemma_insert_bounded(t, x, last);
        let u = insert_sorted(t, x);
        assert forall|i: int, j: int| 0 <= i < j < u.push(last).len() implies
            !key_lt(#[trigger] u.push(last)[j], #[trigger] u.push(last)[i]) by {
            assert(u.push(last)[i] == u[i]);
            if j < u.len() {
                assert(u.push(last)[j] == u[j]);
            }
        }
    } else {
        let last = s.last();
        assert forall|i: int, j: int| 0 <= i < j < s.push(x).len() implies
            !key_lt(#[trigger] s.push(x)[j], #[trigger] s.push(x)[i]) by {
            assert(s.push(x)[i] == s[i]);
            if j < s.len() {
                assert(s.push(x)[j] == s[j]);
            } else if i < s.len() - 1 {
                assert(!key_lt(s[s.len() - 1], s[i]));
                lemma_key_order(s[i], last, x);
            }
        }
    }
}

/// The sort orders devices by their key: no device comes after one that
/// sorts after it. Among devices of equal ordering key, the one with the
/// smaller `id_path` comes first.
pub proof fn lemma_sort_orders_by_key(s: Seq<ClassifiedDevice>)
    ensures
        stable_sort(s).len() == s.len(),
        sorted_by_key(stable_sort(s)),
    decreases s.len(),
{
    if s.len() > 0 {
        lemma_sort_orders_by_key(s.drop_last());
        lemma_insert_keeps_order(stable_sort(s.drop_last()), s.last());
    }
}

/// The sort orders devices by ordering key: a device with a smaller key
/// (say 2) always comes before one with a larger key (say 3), whatever
/// their names and `id_path`s.
pub proof fn lemma_sort_orders_by_type_ord(s: Seq<ClassifiedDevice>)
    ensures
        stable_sort(s).len() == s.len(),
        forall|i: int, j: int| 0 <= i < stable_sort(s).len() && 0 <= j < stable_sort(s).len()
            && (#[trigger] stable_sort(s)[i]).type_ord < (#[trigger] stable_sort(s)[j]).type_ord ==> i < j,
{
    lemma_sort_orders_by_key(s);
}

proof fn lemma_insert_keeps_devices(s: Seq<ClassifiedDevice>, x: ClassifiedDevice)
    ensures
        insert_sorted(s, x).to_multiset() == s.to_multiset().insert(x),
    decreases s.len(),
{
    broadcast use vstd::multiset::group_multiset_axioms;
    if s.len() == 0 {
        vstd::seq_lib::to_multiset_build(s, x);
        assert(seq![x] =~= s.push(x));
    } else if key_lt(x, s.last()) {
        let t = s.drop_last();
        lemma_insert_keeps_devices(t, x);
        vstd::seq_lib::to_multiset_build(insert_sorted(t, x), s.last());
        vstd::seq_lib::to_multiset_build(t, s.last());
        assert(t.push(s.last()) =~= s);
        assert(s.to_multiset().insert(x) =~= t.to_multiset().insert(x).insert(s.last()));
    } else {
        vstd::seq_lib::to_multiset_build(s, x);
    }
}

/// Sorting keeps exactly the devices it is given, each as often as it
/// occurs.
pub proof fn lemma_sort_keeps_devices(s: Seq<ClassifiedDevice>)
    ensures
        stable_sort(s).to_multiset() == s.to_multiset(),
    decreases s.len(),
{
    if s.len() == 0 {
        assert(stable_sort(s) =~= s);
    } else {
        let t = s.drop_last();
        lemma_sort_keeps_devices(t);
        lemma_insert_keeps_devices(stable_sort(t), s.last());
        vstd::seq_lib::to_multiset_build(t, s.last());
        assert(t.push(s.last()) =~= s);
    }
}

/// The JSON texts, with ordering keys, of the devices of `s` whose device
/// type is `t`, in their order in `s`.
pub open spec fn group_json(s: Seq<ClassifiedDevice>, t: Seq<char>) -> Seq<Seq<char>>
    decreases s.len(),
{
    if s.len() == 0 {
        Seq::empty()
    } else if s.last().device.device_type@ == t {
        group_json(s.drop_last(), t).push(device_json(s.last().device, Some(s.last().type_ord)))
    } else {
        group_json(s.drop_last(), t)
    }
}

/// The device type of the `i`-th device.
pub open spec fn type_at(s: Seq<ClassifiedDevice>, i: int) -> Seq<char> {
    s[i].device.device_type@
}

/// The place of the `i`-th device within its device type's group.
pub open spec fn rank(s: Seq<ClassifiedDevice>, i: int) -> int {
    group_json(s.subrange(0, i), type_at(s, i)).len() as int
}

/// The names the script gives the group of device type `t`.
pub open spec fn group_names(script: Seq<char>, s: Seq<ClassifiedDevice>, t: Seq<char>) -> Option<Seq<Seq<char>>> {
    script_con_names(script, naming_entry(), group_json(s, t), t, script_limits())
}

/// The naming function names the group of device type `t` one by one.
pub open spec fn group_named(script: Seq<char>, s: Seq<ClassifiedDevice>, t: Seq<char>) -> bool {
    group_names(script, s, t) matches Some(v) && v.len() == group_json(s, t).len()
}

/// The connection name the rules give the `i`-th device.
pub open spec fn con_name_at(script: Seq<char>, s: Seq<ClassifiedDevice>, i: int) -> Seq<char> {
    group_names(script, s, type_at(s, i)).unwrap()[rank(s, i)]
}

proof fn lemma_group_grows(s: Seq<ClassifiedDevice>, t: Seq<char>, i: int, j: int)
    requires
        0 <= i <= j <= s.len(),
    ensures
        group_json(s.subrange(0, i), t).len() <= group_json(s.subrange(0, j), t).len(),
        i < j && s[i].device.device_type@ == t ==> group_json(s.subrange(0, i), t).len() < group_json(s.subrange(0, j), t).len(),
    decreases j - i,
{
    if i < j {
        lemma_group_grows(s, t, i, j - 1);
        assert(s.subrange(0, j).drop_last() =~= s.subrange(0, j - 1));
        if i == j - 1 {
            assert(s.subrange(0, j).last() == s[i]);
        }
    }
}

fn group_texts(s: &Vec<ClassifiedDevice>, t: &String) -> (r: Vec<String>)
    ensures
        r.deep_view() == group_json(s@, t@),
{
    let mut out: Vec<String> = Vec::new();
    let mut j: usize = 0;
    while j < s.len()
        invariant
            j <= s@.len(),
            out.deep_view() == group_json(s@.subrange(0, j as int), t@),
        decreases s@.len() - j,
    {
        assert(s@.subrange(0, j + 1).drop_last() =~= s@.subrange(0, j as int));
        assert(s@.subrange(0, j + 1).last() == s@[j as int]);
        if s[j].device.device_type == *t {
            let text = device_to_json(&s[j].device, Some(s[j].type_ord));
            out.push(text);
            assert(out.deep_view() =~= group_json(s@.subrange(0, j + 1), t@));
        }
        j = j + 1;
    }
    assert(s@.subrange(0, s@.len() as int) =~= s@);
    out
}

/// Names every device of the sorted list through the naming function
/// `modify_connections` of the rule script, called once per device type
/// with the devices of that type in their order in the list. The result
/// keeps the order of the list.
///
/// The script runs under the same limits as for classification.
pub fn insert_device_con_names(script: &str, devices: Vec<ClassifiedDevice>) -> (r: Result<Vec<DesiredDevice>, RuleError>)
    ensures
        r is Ok <==> forall|i: int| 0 <= i < devices@.len() ==> group_named(script@, devices@, #[trigger] type_at(devices@, i)),
        r is Err ==> r == Err::<Vec<DesiredDevice>, RuleError>(RuleError::NamingFailed),
        r matches Ok(v) ==> v@.len() == devices@.len() && forall|i: int| 0 <= i < v@.len() ==> {
            &&& (#[trigger] v@[i]).device == devices@[i].device
            &&& v@[i].type_ord == devices@[i].type_ord
            &&& v@[i].con_name@ == con_name_at(script@, devices@, i)
        },
{
    let n = devices.len();
    let mut names: Vec<Option<String>> = Vec::new();
    let mut k: usize = 0;
    while k < n
        invariant
            n == devices@.len(),
            k <= n,
            names@.len() == k,
            forall|j: int| 0 <= j < k ==> (#[trigger] names@[j]) is None,
        decreases n - k,
    {
        names.push(None);
        k = k + 1;
    }
    let ghost s = devices@;
    let mut i: usize = 0;
    while i < n
        invariant
            s == devices@,
            n == s.len(),
            i <= n,
            names@.len() == n,
            forall|j: int| 0 <= j < n ==> ((#[trigger] names@[j]) is Some <==>
                exists|a: int| 0 <= a < i && type_at(s, a) == type_at(s, j)),
            forall|j: int| 0 <= j < n && (#[trigger] names@[j]) is Some ==> group_named(script@, s, type_at(s, j)),
            forall|j: int| 0 <= j < n ==> (#[trigger] names@[j] matches Some(x) ==> x@ == con_name_at(script@, s, j)),
            forall|a: int| 0 <= a < i ==> group_named(script@, s, #[trigger] type_at(s, a)),
        decreases n - i,
    {
        if names[i].is_none() {
            let t = &devices[i].device.device_type;
            let texts = group_texts(&devices, t);
            let named = eval_con_names(script, "modify_connections", &texts, t.as_str(), limits());
            let v = match named {
                Some(v) => v,
                None => {
                    assert(group_names(script@, s, type_at(s, i as int)) is None);
                    assert(!group_named(script@, devices@, type_at(devices@, i as int)));
                    return Err(RuleError::NamingFailed);
                },
            };
            let vl = v.len();
            if vl != texts.len() {
                assert(texts.deep_view().len() == texts@.len());
                assert(!group_named(script@, devices@, type_at(devices@, i as int)));
                return Err(RuleError::NamingFailed);
            }
            let ghost old_names = names@;
            let mut j: usize = 0;
            let mut c: usize = 0;
            while j < n
                invariant
                    s == devices@,
                    n == s.len(),
                    i < n,
                    j <= n,
                    *t == devices@[i as int].device.device_type,
                    group_names(script@, s, t@) == Some(v.deep_view()),
                    v@.len() == group_json(s, t@).len(),
                    vl == v@.len(),
                    c == group_json(s.subrange(0, j as int), t@).len(),
                    names@.len() == n,
                    old_names.len() == n,
                    forall|b: int| 0 <= b < n && type_at(s, b) != t@ ==> names@[b] == old_names[b],
                    forall|b: int| 0 <= b < j && type_at(s, b) == t@ ==> (#[trigger] names@[b] matches Some(x) && x@ == con_name_at(script@, s, b)),
                    forall|b: int| j <= b < n && type_at(s, b) == t@ ==> names@[b] == old_names[b],
                decreases n - j,
            {
                proof {
                    lemma_group_grows(s, t@, j as int, n as int);
                    assert(s.subrange(0, n as int) =~= s);
                }
                assert(s.subrange(0, j + 1).drop_last() =~= s.subrange(0, j as int));
                assert(s.subrange(0, j + 1).last() == s[j as int]);
                if devices[j].device.device_type == *t {
                    let x = v[c].clone();
                    assert(v.deep_view()[c as int] == v@[c as int]@);
                    names.set(j, Some(x));
                    c = c + 1;
                }
                j = j + 1;
            }
            proof {
                assert forall|b: int| 0 <= b < n implies ((#[trigger] names@[b]) is Some <==>
                    exists|a: int| 0 <= a < i + 1 && type_at(s, a) == type_at(s, b)) by {
                    if type_at(s, b) == t@ {
                        assert(type_at(s, i as int) == type_at(s, b));
                    } else if names@[b] is Some {
                        let a = choose|a: int| 0 <= a < i && type_at(s, a) == type_at(s, b);
                        assert(0 <= a < i + 1 && type_at(s, a) == type_at(s, b));
                    } else {
                        assert forall|a: int| 0 <= a < i + 1 implies type_at(s, a) != type_at(s, b) by {
                            if a < i {
                            }
                        }
                    }
                }
            }
        } else {
            proof {
                let a = choose|a: int| 0 <= a < i && type_at(s, a) == type_at(s, i as int);
                assert(group_named(script@, s, type_at(s, a)));
            }
        }
        i = i + 1;
    }
    proof {
        assert forall|j: int| 0 <= j < n implies (#[trigger] names@[j]) is Some by {
            assert(type_at(s, j) == type_at(s, j));
        }
    }
    let mut rest = devices;
    let mut rest_names = names;
    let mut out: Vec<DesiredDevice> = Vec::new();
    while rest.len() > 0
        invariant
            n == s.len(),
            out@.len() + rest@.len() == n,
            rest_names@.len() == rest@.len(),
            rest@ == s.subrange(out@.len() as int, n as int),
            forall|j: int| 0 <= j < rest_names@.len() ==> (#[trigger] rest_names@[j] matches Some(x)
                && x@ == con_name_at(script@, s, j + out@.len())),
            forall|j: int| 0 <= j < out@.len() ==> {
                &&& (#[trigger] out@[j]).device == s[j].device
                &&& out@[j].type_ord == s[j].type_ord
                &&& out@[j].con_name@ == con_name_at(script@, s, j)
            },
        decreases rest@.len(),
    {
        let ghost before = rest_names@;
        let d = rest.remove(0);
        let name = rest_names.remove(0);
        assert(before[0] == name);
        assert forall|j: int| 0 <= j < rest_names@.len() implies rest_names@[j] == before[j + 1] by {}
        match name {
            Some(x) => {
                out.push(DesiredDevice { device: d.device, type_ord: d.type_ord, con_name: x });
            },
            None => {
                assert(false);
                return Err(RuleError::NamingFailed);
            },
        }
    }
    proof {
        assert forall|i: int| 0 <= i < s.len() implies group_named(script@, s, #[trigger] type_at(s, i)) by {}
    }
    Ok(out)
}

/// The desired devices: the devices classified, sorted and named by the
/// rule script, in sorted order.
pub fn get_desired_devices(script: &str, devices: Vec<NetDevice>) -> (r: Result<Vec<DesiredDevice>, RuleError>)
    ensures
        r is Err ==> r == Err::<Vec<DesiredDevice>, RuleError>(RuleError::ClassifyFailed)
            || r == Err::<Vec<DesiredDevice>, RuleError>(RuleError::NamingFailed),
        r == Err::<Vec<DesiredDevice>, RuleError>(RuleError::ClassifyFailed) <==>
            exists|i: int| 0 <= i < devices@.len() && type_ord_of(script@, #[trigger] devices@[i]) is None,
        (forall|i: int| 0 <= i < devices@.len() ==> type_ord_of(script@, #[trigger] devices@[i]) is Some) ==> exists|c: Seq<ClassifiedDevice>| {
            &&& #[trigger] stable_sort(c).len() == devices@.len()
            &&& c.len() == devices@.len()
            &&& forall|i: int| 0 <= i < c.len() ==> (#[trigger] c[i]).device == devices@[i]
                && type_ord_of(script@, devices@[i]) == Some(c[i].type_ord)
            &&& (r is Ok <==> forall|i: int| 0 <= i < c.len() ==>
                    group_named(script@, stable_sort(c), #[trigger] type_at(stable_sort(c), i)))
            &&& r matches Ok(v) ==> v@.len() == c.len() && forall|i: int| 0 <= i < v@.len() ==> {
                &&& (#[trigger] v@[i]).device == stable_sort(c)[i].device
                &&& v@[i].type_ord == stable_sort(c)[i].type_ord
                &&& v@[i].con_name@ == con_name_at(script@, stable_sort(c), i)
            }
        },
{
    let ghost d = devices@;
    match sort_devices(script, devices) {
        Ok(sorted) => {
            let ghost c = choose|c: Seq<ClassifiedDevice>| {
                &&& #[trigger] stable_sort(c) == sorted@
                &&& c.len() == d.len()
                &&& forall|i: int| 0 <= i < c.len() ==> (#[trigger] c[i]).device == d[i]
                    && type_ord_of(script@, d[i]) == Some(c[i].type_ord)
            };
            proof { lemma_sort_orders_by_key(c); }
            let r = insert_device_con_names(script, sorted);
            assert(stable_sort(c).len() == d.len());
            r
        },
        Err(e) => {
            proof {
                assert(!(forall|i: int| 0 <= i < d.len() ==> type_ord_of(script@, #[trigger] d[i]) is Some));
                assert(exists|i: int| 0 <= i < devices@.len() && type_ord_of(script@, #[trigger] devices@[i]) is None);
            }
            Err(e)
        },
    }
}

} // verus!
