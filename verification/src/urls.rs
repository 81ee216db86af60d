use vstd::prelude::*;
use crate::mod_info::ModSpecification;
use crate::strutil::{
    all_digits, digit_val, digits_val, find_char, is_digit_char, parse_u32, spec_dec,
    spec_digit_char, spec_find, u32_dec, lemma_spec_find_props, lemma_spec_find_at,
    lemma_spec_find_none,
};

verus! {

/// The fixed prefix of every locator the mod registry backend claims.
pub open spec fn modio_prefix() -> Seq<char> {
    "https://mod.io/g/drg/m/"@
}

/// Whether a non-empty all-digit string reads as a `u32`.
pub open spec fn spec_digits_u32(s: Seq<char>) -> Option<u32> {
    if s.len() > 0 && all_digits(s) && digits_val(s) <= u32::MAX as int {
        Some(digits_val(s) as u32)
    } else {
        None
    }
}

/// The mod registry locator grammar: the fixed prefix, a non-empty name id
/// free of `/` and `#`, then optionally `#` and a decimal mod id, then
/// optionally `/` and a decimal file id.
pub open spec fn spec_parse_modio(s: Seq<char>) -> Option<(Seq<char>, Option<u32>, Option<u32>)> {
    if s.len() < modio_prefix().len() || s.take(modio_prefix().len() as int) != modio_prefix() {
        None
    } else {
        let rest = s.skip(modio_prefix().len() as int);
        match spec_find(rest, '#') {
            None => if rest.len() > 0 && spec_find(rest, '/') is None {
                Some((rest, None, None))
            } else {
                None
            },
            Some(i) => {
                let name = rest.take(i);
                let tail = rest.skip(i + 1);
                if name.len() == 0 || spec_find(name, '/') is Some {
                    None
                } else {
                    match spec_find(tail, '/') {
                        None => match spec_digits_u32(tail) {
                            Some(m) => Some((name, Some(m), None)),
                            None => None,
                        },
                        Some(j) => match (spec_digits_u32(tail.take(j)), spec_digits_u32(
                            tail.skip(j + 1),
                        )) {
                            (Some(m), Some(f)) => Some((name, Some(m), Some(f))),
                            _ => None,
                        },
                    }
                }
            },
        }
    }
}

/// The parts of a parsed mod registry locator.
pub struct ModioUrl {
    pub name_id: String,
    pub mod_id: Option<u32>,
    pub modfile_id: Option<u32>,
}

fn parse_u32_agree(t: &str) -> (r: Option<u32>)
    ensures
        r == spec_digits_u32(t@),
{
    proof {
        crate::strutil::lemma_digits_val_nonneg(t@);
    }
    parse_u32(t)
}

/// Parses a locator against the mod registry grammar.
pub fn parse_modio_url(url: &String) -> (r: Option<ModioUrl>)
    ensures
        match (r, spec_parse_modio(url@)) {
            (Some(u), Some(v)) => u.name_id@ == v.0 && u.mod_id == v.1 && u.modfile_id == v.2,
            (None, None) => true,
            _ => false,
        },
{
    proof {
        reveal_strlit("https://mod.io/g/drg/m/");
    }
    let s = url.as_str();
    let n = s.unicode_len();
    let prefix = "https://mod.io/g/drg/m/";
    let plen = prefix.unicode_len();
    if n < plen {
        return None;
    }
    let head = s.substring_char(0, plen).to_owned();
    if !head.eq(&prefix.to_owned()) {
        proof {
            assert(url@.take(modio_prefix().len() as int) =~= head@);
        }
        return None;
    }
    proof {
        assert(url@.take(modio_prefix().len() as int) =~= head@);
    }
    let rest = s.substring_char(plen, n);
    proof {
        assert(rest@ =~= url@.skip(modio_prefix().len() as int));
    }
    match find_char(rest, '#') {
        None => {
            if rest.unicode_len() > 0 && find_char(rest, '/').is_none() {
                Some(ModioUrl { name_id: rest.to_owned(), mod_id: None, modfile_id: None })
            } else {
                None
            }
        },
        Some(i) => {
            proof {
                lemma_spec_find_props(rest@, '#');
            }
            let name = rest.substring_char(0, i);
            proof {
                assert(name@ =~= rest@.take(i as int));
            }
            if i == 0 {
                return None;
            }
            if find_char(name, '/').is_some() {
                return None;
            }
            let rn = rest.unicode_len();
            let tail = rest.substring_char(i + 1, rn);
            proof {
                assert(tail@ =~= rest@.skip(i as int + 1));
            }
            match find_char(tail, '/') {
                None => {
                    match parse_u32_agree(tail) {
                        Some(m) => Some(
                            ModioUrl {
                                name_id: name.to_owned(),
                                mod_id: Some(m),
                                modfile_id: None,
                            },
                        ),
                        None => None,
                    }
                },
                Some(j) => {
                    proof {
                        lemma_spec_find_props(tail@, '/');
                    }
                    let tn = tail.unicode_len();
                    let mpart = tail.substring_char(0, j);
                    let fpart = tail.substring_char(j + 1, tn);
                    proof {
                        assert(mpart@ =~= tail@.take(j as int));
                        assert(fpart@ =~= tail@.skip(j as int + 1));
                    }
                    match (parse_u32_agree(mpart), parse_u32_agree(fpart)) {
                        (Some(m), Some(f)) => Some(
                            ModioUrl {
                                name_id: name.to_owned(),
                                mod_id: Some(m),
                                modfile_id: Some(f),
                            },
                        ),
                        _ => None,
                    }
                },
            }
        },
    }
}

/// The canonical locator for a mod: prefix, name id, then the decimal mod
/// id after `#`, and the decimal file id after `/` when one is given.
pub open spec fn spec_format_modio(name: Seq<char>, mod_id: u32, file_id: Option<u32>) -> Seq<
    char,
> {
    match file_id {
        None => modio_prefix() + name + seq!['#'] + spec_dec(mod_id as int),
        Some(f) => modio_prefix() + name + seq!['#'] + spec_dec(mod_id as int) + seq!['/']
            + spec_dec(f as int),
    }
}

/// Builds the canonical locator for a mod id under a name id.
pub fn format_spec(name_id: &String, mod_id: u32, file_id: Option<u32>) -> (r: ModSpecification)
    ensures
        r.url@ == spec_format_modio(name_id@, mod_id, file_id),
{
    proof {
        reveal_strlit("https://mod.io/g/drg/m/");
        reveal_strlit("#");
        reveal_strlit("/");
    }
    let mut s = String::from_str("https://mod.io/g/drg/m/");
    s.append(name_id.as_str());
    s.append("#");
    let m = u32_dec(mod_id);
    s.append(m.as_str());
    match file_id {
        None => {
            proof {
                assert(s@ =~= spec_format_modio(name_id@, mod_id, file_id));
            }
            ModSpecification { url: s }
        },
        Some(f) => {
            s.append("/");
            let fd = u32_dec(f);
            s.append(fd.as_str());
            proof {
                assert(s@ =~= spec_format_modio(name_id@, mod_id, file_id));
            }
            ModSpecification { url: s }
        },
    }
}

pub proof fn lemma_digit_char_val(d: int)
    requires
        0 <= d < 10,
    ensures
        is_digit_char(spec_digit_char(d)),
        digit_val(spec_digit_char(d)) == d,
{
}

pub proof fn lemma_spec_dec_digits(n: int)
    requires
        n >= 0,
    ensures
        spec_dec(n).len() >= 1,
        all_digits(spec_dec(n)),
    decreases n,
{
    if n < 10 {
        lemma_digit_char_val(n);
    } else {
        lemma_spec_dec_digits(n / 10);
        lemma_digit_char_val(n % 10);
        let s = spec_dec(n);
        assert(s == spec_dec(n / 10).push(spec_digit_char(n % 10)));
        assert(forall|i: int| 0 <= i < s.len() - 1 ==> s[i] == spec_dec(n / 10)[i]);
        assert(is_digit_char(s[s.len() - 1]));
    }
}

pub proof fn lemma_spec_dec_val(n: int)
    requires
        n >= 0,
    ensures
        digits_val(spec_dec(n)) == n,
    decreases n,
{
    if n < 10 {
        lemma_digit_char_val(n);
        let s = spec_dec(n);
        assert(s == seq![spec_digit_char(n)]);
        assert(s.drop_last() =~= Seq::<char>::empty());
        assert(digits_val(s.drop_last()) == 0);
        assert(digits_val(s) == digits_val(s.drop_last()) * 10 + digit_val(s.last()));
    } else {
        lemma_spec_dec_val(n / 10);
        lemma_digit_char_val(n % 10);
        let s = spec_dec(n);
        assert(s == spec_dec(n / 10).push(spec_digit_char(n % 10)));
        assert(s.drop_last() =~= spec_dec(n / 10));
        assert(s.last() == spec_digit_char(n % 10));
        assert(s.len() > 0);
        assert(digits_val(s) == digits_val(s.drop_last()) * 10 + digit_val(s.last()));
        vstd::arithmetic::div_mod::lemma_fundamental_div_mod(n, 10);
    }
}

proof fn lemma_digits_not_sep(s: Seq<char>)
    requires
        all_digits(s),
    ensures
        forall|j: int| 0 <= j < s.len() ==> s[j] != '/' && s[j] != '#',
{
    assert(forall|j: int| 0 <= j < s.len() ==> is_digit_char(s[j]) && s[j] != '/' && s[j] != '#');
}

/// Building a mod locator and parsing it back yields the same parts: the
/// grammar and the renderer agree on every name id free of the grammar's
/// separators.
pub proof fn lemma_format_parse_roundtrip(name: Seq<char>, m: u32, f: Option<u32>)
    requires
        name.len() > 0,
        spec_find(name, '/') is None,
        spec_find(name, '#') is None,
    ensures
        spec_parse_modio(spec_format_modio(name, m, f)) == Some((name, Some(m), f)),
{
    let p = modio_prefix();
    let dm = spec_dec(m as int);
    lemma_spec_dec_digits(m as int);
    lemma_spec_dec_val(m as int);
    lemma_digits_not_sep(dm);
    lemma_spec_find_props(name, '/');
    lemma_spec_find_props(name, '#');
    let s = spec_format_modio(name, m, f);
    assert(s.take(p.len() as int) =~= p);
    let rest = s.skip(p.len() as int);
    match f {
        None => {
            assert(rest =~= name + seq!['#'] + dm);
            assert(rest[name.len() as int] == '#');
            assert(forall|j: int| 0 <= j < name.len() ==> rest[j] == name[j]);
            lemma_spec_find_at(rest, '#', name.len() as int);
            assert(rest.take(name.len() as int) =~= name);
            let tail = rest.skip(name.len() as int + 1);
            assert(tail =~= dm);
            lemma_spec_find_none(tail, '/');
            assert(spec_digits_u32(tail) == Some(m));
        },
        Some(fv) => {
            let df = spec_dec(fv as int);
            lemma_spec_dec_digits(fv as int);
            lemma_spec_dec_val(fv as int);
            lemma_digits_not_sep(df);
            assert(rest =~= name + seq!['#'] + dm + seq!['/'] + df);
            assert(rest[name.len() as int] == '#');
            assert(forall|j: int| 0 <= j < name.len() ==> rest[j] == name[j]);
            lemma_spec_find_at(rest, '#', name.len() as int);
            assert(rest.take(name.len() as int) =~= name);
            let tail = rest.skip(name.len() as int + 1);
            assert(tail =~= dm + seq!['/'] + df);
            assert(tail[dm.len() as int] == '/');
            assert(forall|j: int| 0 <= j < dm.len() ==> tail[j] == dm[j]);
            lemma_spec_find_at(tail, '/', dm.len() as int);
            assert(tail.take(dm.len() as int) =~= dm);
            assert(tail.skip(dm.len() as int + 1) =~= df);
            assert(spec_digits_u32(dm) == Some(m));
            assert(spec_digits_u32(df) == Some(fv));
        },
    }
}

/// The hostname grammar of generic HTTP locators: after `http://` or
/// `https://`, the non-empty run up to the first `/` or the end.
pub open spec fn spec_http_hostname(s: Seq<char>) -> Option<Seq<char>> {
    let rest = if s.len() >= 8 && s.take(8) == "https://"@ {
        Some(s.skip(8))
    } else if s.len() >= 7 && s.take(7) == "http://"@ {
        Some(s.skip(7))
    } else {
        None
    };
    match rest {
        None => None,
        Some(r) => {
            let host = match spec_find(r, '/') {
                None => r,
                Some(i) => r.take(i),
            };
            if host.len() > 0 {
                Some(host)
            } else {
                None
            }
        },
    }
}

/// Extracts the hostname of a generic HTTP locator.
pub fn http_hostname(url: &String) -> (r: Option<String>)
    ensures
        match (r, spec_http_hostname(url@)) {
            (Some(h), Some(v)) => h@ == v,
            (None, None) => true,
            _ => false,
        },
{
    proof {
        reveal_strlit("https://");
        reveal_strlit("http://");
    }
    let s = url.as_str();
    let n = s.unicode_len();
    let rest: &str = if n >= 8 && s.substring_char(0, 8).to_owned().eq(&String::from_str(
        "https://",
    )) {
        proof {
            assert(url@.take(8) =~= s@.subrange(0, 8));
        }
        s.substring_char(8, n)
    } else if n >= 7 && s.substring_char(0, 7).to_owned().eq(&String::from_str("http://")) {
        proof {
            assert(url@.take(7) =~= s@.subrange(0, 7));
            assert(url@.take(8) != "https://"@ || url@.len() < 8) by {
                if url@.len() >= 8 && url@.take(8) == "https://"@ {
                    assert(url@.take(7)[4] == url@.take(8)[4]);
                }
            }
        }
        s.substring_char(7, n)
    } else {
        proof {
            if url@.len() >= 8 && url@.take(8) == "https://"@ {
                assert(s@.subrange(0, 8) =~= url@.take(8));
            }
            if url@.len() >= 7 && url@.take(7) == "http://"@ {
                assert(s@.subrange(0, 7) =~= url@.take(7));
            }
        }
        return None;
    };
    let ghost restg = spec_http_hostname_rest(url@);
    proof {
        assert(rest@ =~= restg);
    }
    let rn = rest.unicode_len();
    let host: &str = match find_char(rest, '/') {
        None => rest,
        Some(i) => {
            proof {
                lemma_spec_find_props(rest@, '/');
            }
            rest.substring_char(0, i)
        },
    };
    if host.unicode_len() > 0 {
        Some(host.to_owned())
    } else {
        None
    }
}

/// The text after the scheme, for locators the hostname grammar accepts.
pub open spec fn spec_http_hostname_rest(s: Seq<char>) -> Seq<char> {
    if s.len() >= 8 && s.take(8) == "https://"@ {
        s.skip(8)
    } else {
        s.skip(7)
    }
}

/// The last index holding `c`.
pub open spec fn spec_rfind(s: Seq<char>, c: char) -> Option<int>
    decreases s.len(),
{
    if s.len() == 0 {
        None
    } else if s.last() == c {
        Some(s.len() - 1)
    } else {
        spec_rfind(s.drop_last(), c)
    }
}

pub proof fn lemma_spec_rfind_at(s: Seq<char>, c: char, i: int)
    requires
        0 <= i < s.len(),
        s[i] == c,
        forall|j: int| i < j < s.len() ==> s[j] != c,
    ensures
        spec_rfind(s, c) == Some(i),
    decreases s.len(),
{
    if i < s.len() - 1 {
        lemma_spec_rfind_at(s.drop_last(), c, i);
    }
}

pub proof fn lemma_spec_rfind_none(s: Seq<char>, c: char)
    requires
        forall|j: int| 0 <= j < s.len() ==> s[j] != c,
    ensures
        spec_rfind(s, c) is None,
    decreases s.len(),
{
    if s.len() > 0 {
        lemma_spec_rfind_none(s.drop_last(), c);
    }
}

/// The locator without its trailing separators and trailing `.`
/// components: `/` at the end is dropped, and so is a final component that
/// is exactly `.`, repeatedly, as the standard library does when it reads a
/// file name.
pub open spec fn spec_trim_trailing(s: Seq<char>) -> Seq<char>
    decreases s.len(),
{
    if s.len() > 0 && s.last() == '/' {
        spec_trim_trailing(s.drop_last())
    } else if s.len() > 0 && s.last() == '.' && (s.len() == 1 || s[s.len() - 2] == '/') {
        spec_trim_trailing(s.drop_last())
    } else {
        s
    }
}

/// The file name of a path-like locator, as the standard library reads
/// one: trailing separators and trailing `.` components are ignored, the
/// name is what follows the last remaining `/`, and an empty name or a
/// parent component (`..`) is no name.
pub open spec fn spec_file_name(s: Seq<char>) -> Option<Seq<char>> {
    let t = spec_trim_trailing(s);
    let base = match spec_rfind(t, '/') {
        None => t,
        Some(i) => t.skip(i + 1),
    };
    if base.len() == 0 || base == "."@ || base == ".."@ {
        None
    } else {
        Some(base)
    }
}

fn classify_base(base: &str) -> (r: Option<String>)
    ensures
        match r {
            Some(h) => base@.len() > 0 && base@ != "."@ && base@ != ".."@ && h@ == base@,
            None => base@.len() == 0 || base@ == "."@ || base@ == ".."@,
        },
{
    proof {
        reveal_strlit(".");
        reveal_strlit("..");
    }
    if base.unicode_len() == 0 {
        return None;
    }
    let owned = base.to_owned();
    if owned.eq(&String::from_str(".")) || owned.eq(&String::from_str("..")) {
        None
    } else {
        Some(owned)
    }
}

/// Extracts the file name part of a path-like locator.
pub fn file_name_of(url: &String) -> (r: Option<String>)
    ensures
        match (r, spec_file_name(url@)) {
            (Some(h), Some(v)) => h@ == v,
            (None, None) => true,
            _ => false,
        },
{
    let s = url.as_str();
    assert(s@ == url@);
    let n = s.unicode_len();
    let mut end: usize = n;
    proof {
        assert(s@.take(n as int) =~= s@);
    }
    while end > 0 && (s.get_char(end - 1) == '/' || (s.get_char(end - 1) == '.' && (end == 1
        || s.get_char(end - 2) == '/')))
        invariant
            s@ == url@,
            n == s@.len(),
            end <= n,
            spec_trim_trailing(s@) == spec_trim_trailing(s@.take(end as int)),
        decreases end,
    {
        proof {
            assert(s@.take(end as int).last() == s@[end as int - 1]);
            if end >= 2 {
                assert(s@.take(end as int)[end as int - 2] == s@[end as int - 2]);
            }
            assert(s@.take(end as int).drop_last() =~= s@.take(end as int - 1));
        }
        end -= 1;
    }
    let ghost t = spec_trim_trailing(s@);
    proof {
        if end > 0 {
            assert(s@.take(end as int).last() == s@[end as int - 1]);
            if end >= 2 {
                assert(s@.take(end as int)[end as int - 2] == s@[end as int - 2]);
            }
        }
        assert(t =~= s@.take(end as int));
    }
    let mut i: usize = end;
    while i > 0
        invariant
            s@ == url@,
            n == s@.len(),
            end <= n,
            i <= end,
            t == s@.take(end as int),
            t == spec_trim_trailing(url@),
            forall|j: int| i <= j < end ==> s@[j] != '/',
        decreases i,
    {
        if s.get_char(i - 1) == '/' {
            proof {
                assert(forall|j: int| 0 <= j < end ==> t[j] == s@[j]);
                lemma_spec_rfind_at(t, '/', i as int - 1);
            }
            let base = s.substring_char(i, end);
            proof {
                assert(base@ =~= t.skip(i as int));
            }
            return classify_base(base);
        }
        i -= 1;
    }
    proof {
        assert(forall|j: int| 0 <= j < end ==> t[j] == s@[j]);
        lemma_spec_rfind_none(t, '/');
    }
    let base = s.substring_char(0, end);
    proof {
        assert(base@ =~= t);
    }
    classify_base(base)
}

} // verus!
