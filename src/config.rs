//! Choice of the rule script for the host: a script named after the
//! machine's product name and version, else the default one.
use vstd::prelude::*;
use crate::json::push_char;

verus! {

/// A character with the Unicode White_Space property.
pub open spec fn is_white_space(c: char) -> bool {
    let u = c as u32;
    (0x9 <= u && u <= 0xd) || u == 0x20 || u == 0x85 || u == 0xa0 || u == 0x1680
        || (0x2000 <= u && u <= 0x200a) || u == 0x2028 || u == 0x2029 || u == 0x202f
        || u == 0x205f || u == 0x3000
}

/// The text without its leading white space.
pub open spec fn trim_start_of(s: Seq<char>) -> Seq<char>
    decreases s.len(),
{
    if s.len() > 0 && is_white_space(s[0]) {
        trim_start_of(s.drop_first())
    } else {
        s
    }
}

/// The text without its trailing white space.
pub open spec fn trim_end_of(s: Seq<char>) -> Seq<char>
    decreases s.len(),
{
    if s.len() > 0 && is_white_space(s.last()) {
        trim_end_of(s.drop_last())
    } else {
        s
    }
}

/// The text without leading and trailing white space.
pub open spec fn trim_of(s: Seq<char>) -> Seq<char> {
    trim_end_of(trim_start_of(s))
}

/// What `str::to_lowercase` returns: the text in lower case.
pub uninterp spec fn lower_of(s: Seq<char>) -> Seq<char>;

fn white_space(c: char) -> (r: bool)
    ensures
        r == is_white_space(c),
{
    let u = c as u32;
    (0x9 <= u && u <= 0xd) || u == 0x20 || u == 0x85 || u == 0xa0 || u == 0x1680
        || (0x2000 <= u && u <= 0x200a) || u == 0x2028 || u == 0x2029 || u == 0x202f
        || u == 0x205f || u == 0x3000
}

proof fn lemma_trim_start(s: Seq<char>, i: int)
    requires
        0 <= i <= s.len(),
        forall|k: int| 0 <= k < i ==> is_white_space(#[trigger] s[k]),
        i < s.len() ==> !is_white_space(s[i]),
    ensures
        trim_start_of(s) == s.subrange(i, s.len() as int),
    decreases i,
{
    if i == 0 {
        assert(s.subrange(0, s.len() as int) =~= s);
    } else {
        let t = s.drop_first();
        assert forall|k: int| 0 <= k < i - 1 implies is_white_space(#[trigger] t[k]) by {
            assert(t[k] == s[k + 1]);
        }
        lemma_trim_start(t, i - 1);
        assert(t.subrange(i - 1, t.len() as int) =~= s.subrange(i, s.len() as int));
    }
}

proof fn lemma_trim_end(s: Seq<char>, j: int)
    requires
        0 <= j <= s.len(),
        forall|k: int| j <= k < s.len() ==> is_white_space(#[trigger] s[k]),
        j > 0 ==> !is_white_space(s[j - 1]),
    ensures
        trim_end_of(s) == s.subrange(0, j),
    decreases s.len() - j,
{
    if j == s.len() {
        assert(s.subrange(0, j) =~= s);
    } else {
        let t = s.drop_last();
        lemma_trim_end(t, j);
        assert(t.subrange(0, j) =~= s.subrange(0, j));
    }
}

/// The text without leading and trailing white space, as `str::trim` gives
/// it.
pub fn trim(s: &str) -> (r: String)
    ensures
        r@ == trim_of(s@),
{
    let n = s.unicode_len();
    let mut i: usize = 0;
    while i < n && white_space(s.get_char(i))
        invariant
            n == s@.len(),
            i <= n,
            forall|k: int| 0 <= k < i ==> is_white_space(#[trigger] s@[k]),
        decreases n - i,
    {
        i = i + 1;
    }
    let mut j: usize = n;
    while j > i && white_space(s.get_char(j - 1))
        invariant
            n == s@.len(),
            i <= j <= n,
            forall|k: int| j <= k < n ==> is_white_space(#[trigger] s@[k]),
        decreases j,
    {
        j = j - 1;
    }
    let ghost t = s@.subrange(i as int, n as int);
    proof {
        lemma_trim_start(s@, i as int);
        assert forall|k: int| j - i <= k < t.len() implies is_white_space(#[trigger] t[k]) by {
            assert(t[k] == s@[k + i]);
        }
        if j > i {
            assert(t[j - i - 1] == s@[j - 1]);
        }
        lemma_trim_end(t, j - i);
    }
    let mut out = String::new();
    let mut k: usize = i;
    while k < j
        invariant
            n == s@.len(),
            i <= k <= j <= n,
            out@ == s@.subrange(i as int, k as int),
        decreases j - k,
    {
        push_char(&mut out, s.get_char(k));
        assert(s@.subrange(i as int, k + 1) =~= s@.subrange(i as int, k as int).push(s@[k as int]));
        k = k + 1;
    }
    assert(t.subrange(0, j - i) =~= s@.subrange(i as int, j as int));
    out
}

/// Relies on `str::to_lowercase`: the result depends on the text alone, and
/// an empty text stays empty.
#[verifier::external_body]
fn lowercase(s: &str) -> (r: String)
    ensures
        r@ == lower_of(s@),
        s@.len() == 0 ==> r@.len() == 0,
{
    s.to_lowercase()
}

/// The text with each space replaced by an underscore.
pub open spec fn underscored(s: Seq<char>) -> Seq<char> {
    s.map_values(|c: char| if c == ' ' { '_' } else { c })
}

/// Replaces each space of the text by an underscore.
pub fn underscore_spaces(s: &str) -> (r: String)
    ensures
        r@ == underscored(s@),
{
    let mut out = String::new();
    let n = s.unicode_len();
    let mut i: usize = 0;
    while i < n
        invariant
            n == s@.len(),
            i <= n,
            out@ == underscored(s@.subrange(0, i as int)),
        decreases n - i,
    {
        let c = s.get_char(i);
        if c == ' ' {
            push_char(&mut out, '_');
        } else {
            push_char(&mut out, c);
        }
        assert(underscored(s@.subrange(0, i + 1)) =~= underscored(s@.subrange(0, i as int)).push(
            if c == ' ' { '_' } else { c }));
        i = i + 1;
    }
    assert(s@.subrange(0, n as int) =~= s@);
    out
}

/// A product string of the firmware tables as a name part: trimmed, lower
/// case, spaces as underscores.
pub open spec fn product_part(info: Seq<char>) -> Seq<char> {
    underscored(lower_of(trim_of(info)))
}

pub fn format_product(info: String) -> (r: String)
    ensures
        r@ == product_part(info@),
{
    let t = trim(info.as_str());
    let l = lowercase(t.as_str());
    underscore_spaces(l.as_str())
}

/// The machine's name for rule scripts: the product name, and after a dash
/// the product version where there is one.
pub open spec fn bios_name_of(name: Seq<char>, version: Seq<char>) -> Seq<char> {
    if product_part(version).len() == 0 {
        product_part(name)
    } else {
        product_part(name) + seq!['-'] + product_part(version)
    }
}

pub fn bios_name(product_name: String, product_version: String) -> (r: String)
    ensures
        r@ == bios_name_of(product_name@, product_version@),
{
    let version = format_product(product_version);
    let mut name = format_product(product_name);
    if version.unicode_len() == 0 {
        name
    } else {
        push_char(&mut name, '-');
        name.append(version.as_str());
        name
    }
}

pub open spec fn rules_suffix() -> Seq<char> {
    ".rules"@
}

/// Of the file names in the configuration directory, the one of the
/// machine's script where there is one, else `default.rules`.
pub open spec fn rules_file_of(file_names: Seq<Seq<char>>, bios: Seq<char>) -> Seq<char> {
    if bios.len() > 0 && exists|i: int| 0 <= i < file_names.len() && #[trigger] file_names[i] == bios + rules_suffix() {
        bios + rules_suffix()
    } else {
        "default.rules"@
    }
}

/// Picks the rule script for the machine among the names of the files of
/// the configuration directory.
pub fn pick_rules_file(file_names: &Vec<String>, bios: &str) -> (r: String)
    ensures
        r@ == rules_file_of(file_names.deep_view(), bios@),
{
    let mut wanted = String::from_str(bios);
    wanted.append(".rules");
    if bios.unicode_len() > 0 {
        let mut i: usize = 0;
        while i < file_names.len()
            invariant
                i <= file_names@.len(),
                wanted@ == bios@ + rules_suffix(),
                bios@.len() > 0,
                forall|j: int| 0 <= j < i ==> file_names.deep_view()[j] != bios@ + rules_suffix(),
            decreases file_names@.len() - i,
        {
            if file_names[i] == wanted {
                assert(file_names.deep_view()[i as int] == bios@ + rules_suffix());
                return wanted;
            }
            i = i + 1;
        }
    }
    String::from_str("default.rules")
}

} // verus!
