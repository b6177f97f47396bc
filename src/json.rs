//! JSON text of device records, the form in which the rule script receives
//! them.
use vstd::prelude::*;
use crate::model::{ConnectionItem, NetDevice};

verus! {

/// Relies on `String::push`: appends one character.
#[verifier::external_body]
pub(crate) fn push_char(s: &mut String, c: char)
    ensures
        final(s)@ == old(s)@.push(c),
{
    s.push(c);
}

pub open spec fn hex_digit(n: u32) -> char {
    if n < 10 {
        (('0' as u32) + n) as char
    } else {
        (('a' as u32) + n - 10) as char
    }
}

/// The JSON escape of one character: quote and backslash get a backslash,
/// other control characters become `\u00XX`.
pub open spec fn escape_char(c: char) -> Seq<char> {
    if c == '"' || c == '\\' {
        seq!['\\', c]
    } else if (c as u32) < 0x20 {
        seq!['\\', 'u', '0', '0', hex_digit((c as u32) / 16), hex_digit((c as u32) % 16)]
    } else {
        seq![c]
    }
}

pub open spec fn escape(s: Seq<char>) -> Seq<char>
    decreases s.len(),
{
    if s.len() == 0 {
        Seq::empty()
    } else {
        escape(s.drop_last()) + escape_char(s.last())
    }
}

/// A JSON string literal.
pub open spec fn str_json(s: Seq<char>) -> Seq<char> {
    seq!['"'] + escape(s) + seq!['"']
}

/// A JSON string, or `null`.
pub open spec fn opt_json(s: Option<Seq<char>>) -> Seq<char> {
    match s {
        Some(t) => str_json(t),
        None => "null"@,
    }
}

/// A JSON string, with an absent value written as the empty string.
pub open spec fn opt_or_empty_json(s: Option<Seq<char>>) -> Seq<char> {
    match s {
        Some(t) => str_json(t),
        None => str_json(Seq::empty()),
    }
}

pub open spec fn bool_json(b: bool) -> Seq<char> {
    if b {
        "true"@
    } else {
        "false"@
    }
}

pub open spec fn digits(n: nat) -> Seq<char>
    decreases n,
{
    if n < 10 {
        seq![hex_digit(n as u32)]
    } else {
        digits(n / 10).push(hex_digit((n % 10) as u32))
    }
}

/// A JSON integer in decimal.
pub open spec fn int_json(n: int) -> Seq<char> {
    if n < 0 {
        seq!['-'] + digits((-n) as nat)
    } else {
        digits(n as nat)
    }
}

/// The elements of a JSON array of strings, without the brackets.
pub open spec fn str_items(v: Seq<Seq<char>>) -> Seq<char>
    decreases v.len(),
{
    if v.len() == 0 {
        Seq::empty()
    } else if v.len() == 1 {
        str_json(v[0])
    } else {
        str_items(v.drop_last()) + seq![','] + str_json(v.last())
    }
}

pub open spec fn str_array_json(v: Seq<Seq<char>>) -> Seq<char> {
    seq!['['] + str_items(v) + seq![']']
}

pub open spec fn opt_view(s: Option<String>) -> Option<Seq<char>> {
    match s {
        Some(t) => Some(t@),
        None => None,
    }
}

pub open spec fn connection_json(c: ConnectionItem) -> Seq<char> {
    "{\"id\":"@ + opt_json(opt_view(c.id)) + ",\"uuid\":"@ + opt_json(opt_view(c.uuid)) + "}"@
}

/// The address configurations as the rule script sees them: an absent one
/// as the empty string, a present one left out.
pub open spec fn ip_members(d: NetDevice) -> Seq<char> {
    (if d.ip4info is None { ",\"ip4info\":\"\""@ } else { Seq::empty() })
        + (if d.ip6info is None { ",\"ip6info\":\"\""@ } else { Seq::empty() })
}

/// The members of a device object that the rule script sees: every member
/// that is not an object, absent values as the empty string, and the
/// connection reference.
#[verifier::opaque]
pub open spec fn device_members(d: NetDevice) -> Seq<char> {
    "{\"name\":"@ + str_json(d.name@)
        + ",\"connection\":"@ + connection_json(d.connection)
        + ",\"mac\":"@ + str_json(d.mac@)
        + ",\"state\":"@ + str_json(d.state@)
        + ",\"device_type\":"@ + str_json(d.device_type@)
        + ",\"virtual\":"@ + bool_json(d.is_virtual)
        + ",\"is_managed\":"@ + bool_json(d.is_managed)
        + ",\"driver\":"@ + opt_or_empty_json(opt_view(d.driver))
        + ",\"conn\":"@ + str_array_json(d.conn.deep_view())
        + ",\"dev_path\":"@ + opt_or_empty_json(opt_view(d.dev_path))
        + ",\"id_path\":"@ + opt_or_empty_json(opt_view(d.id_path))
        + ",\"net_link_modes\":"@ + str_array_json(d.net_link_modes.deep_view())
        + ip_members(d)
}

/// The JSON object of a device, with its ordering key where it has one.
#[verifier::opaque]
pub open spec fn device_json(d: NetDevice, type_ord: Option<i64>) -> Seq<char> {
    match type_ord {
        Some(k) => device_members(d) + ",\"type_ord\":"@ + int_json(k as int) + "}"@,
        None => device_members(d) + "}"@,
    }
}

fn push_str_json(out: &mut String, s: &str)
    ensures
        final(out)@ == old(out)@ + str_json(s@),
{
    push_char(out, '"');
    let n = s.unicode_len();
    let mut i: usize = 0;
    while i < n
        invariant
            n == s@.len(),
            i <= n,
            out@ == old(out)@ + seq!['"'] + escape(s@.subrange(0, i as int)),
        decreases n - i,
    {
        let c = s.get_char(i);
        assert(s@.subrange(0, i + 1).drop_last() =~= s@.subrange(0, i as int));
        if c == '"' || c == '\\' {
            push_char(out, '\\');
            push_char(out, c);
        } else if (c as u32) < 0x20 {
            push_char(out, '\\');
            push_char(out, 'u');
            push_char(out, '0');
            push_char(out, '0');
            push_char(out, hex_char((c as u32) / 16));
            push_char(out, hex_char((c as u32) % 16));
        } else {
            push_char(out, c);
        }
        assert(out@ == old(out)@ + seq!['"'] + escape(s@.subrange(0, i + 1)));
        i = i + 1;
    }
    assert(s@.subrange(0, n as int) =~= s@);
    push_char(out, '"');
    assert(out@ =~= old(out)@ + str_json(s@));
}

fn hex_char(n: u32) -> (c: char)
    requires
        n < 16,
    ensures
        c == hex_digit(n),
{
    if n < 10 {
        ((('0' as u32) + n) as u8) as char
    } else {
        ((('a' as u32) + n - 10) as u8) as char
    }
}

fn push_opt_json(out: &mut String, s: &Option<String>, absent_as_empty: bool)
    ensures
        final(out)@ == old(out)@ + (if absent_as_empty {
            opt_or_empty_json(opt_view(*s))
        } else {
            opt_json(opt_view(*s))
        }),
{
    match s {
        Some(t) => push_str_json(out, t.as_str()),
        None => {
            if absent_as_empty {
                push_str_json(out, "");
                assert(""@ =~= Seq::<char>::empty()) by { reveal_strlit(""); }
            } else {
                out.append("null");
            }
        },
    }
}

fn push_str_array_json(out: &mut String, v: &Vec<String>)
    ensures
        final(out)@ == old(out)@ + str_array_json(v.deep_view()),
{
    push_char(out, '[');
    let mut i: usize = 0;
    while i < v.len()
        invariant
            i <= v@.len(),
            out@ == old(out)@ + seq!['['] + str_items(v.deep_view().subrange(0, i as int)),
        decreases v@.len() - i,
    {
        let ghost before = out@;
        if i > 0 {
            push_char(out, ',');
        }
        push_str_json(out, v[i].as_str());
        proof {
            let p = v.deep_view().subrange(0, i + 1);
            assert(p.drop_last() =~= v.deep_view().subrange(0, i as int));
            assert(p.last() == v[i as int]@);
            if i == 0 {
                assert(p.len() == 1);
            }
        }
        assert(out@ =~= old(out)@ + seq!['['] + str_items(v.deep_view().subrange(0, i + 1)));
        i = i + 1;
    }
    assert(v.deep_view().subrange(0, v@.len() as int) =~= v.deep_view());
    push_char(out, ']');
    assert(out@ =~= old(out)@ + str_array_json(v.deep_view()));
}

fn push_digits(out: &mut String, n: u64)
    ensures
        final(out)@ == old(out)@ + digits(n as nat),
    decreases n,
{
    if n >= 10 {
        push_digits(out, n / 10);
    }
    push_char(out, hex_char((n % 10) as u32));
    assert(out@ =~= old(out)@ + digits(n as nat));
}

fn push_int_json(out: &mut String, n: i64)
    ensures
        final(out)@ == old(out)@ + int_json(n as int),
{
    if n < 0 {
        push_char(out, '-');
        let m: u64 = ((-(n + 1)) as u64) + 1;
        push_digits(out, m);
        assert(out@ =~= old(out)@ + int_json(n as int));
    } else {
        push_digits(out, n as u64);
    }
}

fn push_bool_json(out: &mut String, b: bool)
    ensures
        final(out)@ == old(out)@ + bool_json(b),
{
    if b {
        out.append("true");
    } else {
        out.append("false");
    }
}

fn push_connection_json(out: &mut String, c: &ConnectionItem)
    ensures
        final(out)@ == old(out)@ + connection_json(*c),
{
    out.append("{\"id\":");
    push_opt_json(out, &c.id, false);
    out.append(",\"uuid\":");
    push_opt_json(out, &c.uuid, false);
    out.append("}");
    assert(out@ =~= old(out)@ + connection_json(*c));
}

/// The JSON text of a device record, with its ordering key where one is
/// given.
pub fn device_to_json(d: &NetDevice, type_ord: Option<i64>) -> (r: String)
    ensures
        r@ == device_json(*d, type_ord),
{
    let mut out = String::new();
    out.append("{\"name\":");
    push_str_json(&mut out, d.name.as_str());
    out.append(",\"connection\":");
    push_connection_json(&mut out, &d.connection);
    out.append(",\"mac\":");
    push_str_json(&mut out, d.mac.as_str());
    out.append(",\"state\":");
    push_str_json(&mut out, d.state.as_str());
    out.append(",\"device_type\":");
    push_str_json(&mut out, d.device_type.as_str());
    out.append(",\"virtual\":");
    push_bool_json(&mut out, d.is_virtual);
    out.append(",\"is_managed\":");
    push_bool_json(&mut out, d.is_managed);
    out.append(",\"driver\":");
    push_opt_json(&mut out, &d.driver, true);
    out.append(",\"conn\":");
    push_str_array_json(&mut out, &d.conn);
    out.append(",\"dev_path\":");
    push_opt_json(&mut out, &d.dev_path, true);
    out.append(",\"id_path\":");
    push_opt_json(&mut out, &d.id_path, true);
    out.append(",\"net_link_modes\":");
    push_str_array_json(&mut out, &d.net_link_modes);
    if d.ip4info.is_none() {
        out.append(",\"ip4info\":\"\"");
    }
    if d.ip6info.is_none() {
        out.append(",\"ip6info\":\"\"");
    }
    assert(out@ =~= device_members(*d)) by { reveal(device_members); }
    match type_ord {
        Some(k) => {
            out.append(",\"type_ord\":");
            push_int_json(&mut out, k);
            out.append("}");
        },
        None => {
            out.append("}");
        },
    }
    assert(out@ =~= device_json(*d, type_ord)) by { reveal(device_json); }
    out
}

} // verus!
