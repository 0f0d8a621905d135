//! Naming of fonts for display.
use vstd::prelude::*;

use crate::chars::{spec_trim, str_to_chars, string_from_chars, trim_chars};

verus! {

/// `c` with `-` and `_` turned into spaces
pub open spec fn spec_unseparate(c: char) -> char {
    if c == '-' || c == '_' {
        ' '
    } else {
        c
    }
}

/// the part of a file name before its last `.` (the whole name when it has
/// no `.`)
pub open spec fn spec_stem(s: Seq<char>) -> Seq<char> {
    if exists|i: int| 0 <= i < s.len() && s[i] == '.' {
        let i = choose|i: int|
            0 <= i < s.len() && s[i] == '.' && forall|j: int| i < j < s.len() ==> s[j] != '.';
        s.subrange(0, i)
    } else {
        s
    }
}

/// Derive a friendly display name from a font's file name by stripping the
/// extension (everything from the last `.`) and replacing `-` and `_` with
/// spaces (`noto-sans-mono.ttf` becomes `noto sans mono`)
pub fn display_name_from_file_name(file_name: &str) -> (r: String)
    ensures
        r@ == spec_stem(file_name@).map_values(|c: char| spec_unseparate(c)),
{
    let s = str_to_chars(file_name);
    let mut k = s.len();
    while k > 0 && s[k - 1] != '.'
        invariant
            k <= s@.len(),
            forall|j: int| k <= j < s@.len() ==> s@[j] != '.',
        decreases k,
    {
        k = k - 1;
    }
    let end = if k > 0 {
        k - 1
    } else {
        s.len()
    };
    proof {
        if k > 0 {
            let i = choose|i: int|
                0 <= i < s@.len() && s@[i] == '.' && forall|j: int| i < j < s@.len() ==> s@[j] != '.';
            assert(s@[end as int] == '.');
            if i < end {
                assert(s@[end as int] != '.');
            } else if i > end {
                assert(s@[i] != '.');
            }
        } else {
            assert forall|i: int| 0 <= i < s@.len() implies s@[i] != '.' by {}
        }
    }
    let mut out: Vec<char> = Vec::new();
    let mut i: usize = 0;
    while i < end
        invariant
            end <= s@.len(),
            i <= end,
            out@ == s@.subrange(0, i as int).map_values(|c: char| spec_unseparate(c)),
        decreases end - i,
    {
        let c = s[i];
        let d = if c == '-' || c == '_' {
            ' '
        } else {
            c
        };
        out.push(d);
        proof {
            assert(out@ =~= s@.subrange(0, i as int + 1).map_values(|c: char| spec_unseparate(c)));
        }
        i = i + 1;
    }
    string_from_chars(&out)
}

/// one record of a font's OpenType `name` table: its name id, whether its
/// encoding is a Unicode one, and its text where it could be decoded
#[derive(Debug, Clone)]
pub struct NameRecord {
    /// the name id (4: full name, 16: typographic family, 1: family)
    pub name_id: u16,
    /// the record's platform and encoding are a Unicode encoding
    pub is_unicode: bool,
    /// the decoded text, `None` when the encoding cannot be decoded
    pub text: Option<String>,
}

/// a name record as plain values
pub open spec fn record_view(n: NameRecord) -> (u16, bool, Option<Seq<char>>) {
    (n.name_id, n.is_unicode, match n.text {
        Some(t) => Some(t@),
        None => None,
    })
}

/// a name record at an index of the `name` table, `None` where the table
/// cannot give one there, as plain values
pub open spec fn slot_view(n: Option<NameRecord>) -> Option<(u16, bool, Option<Seq<char>>)> {
    match n {
        Some(r) => Some(record_view(r)),
        None => None,
    }
}

/// the records of the `name` table of the font in `bytes` (face `0`), one
/// per index of the table in order (`None` where its text lies outside the
/// table's storage), or `None` when the bytes are not a font
pub uninterp spec fn spec_font_name_records(bytes: Seq<u8>) -> Option<
    Seq<Option<(u16, bool, Option<Seq<char>>)>>,
>;

/// the records of the `name` table of the font in `bytes`; this calls
/// `ttf_parser::Face::parse` (face index 0) and `Names::get` for each index
/// below `Names::len` (reading `name_id`, `is_unicode` and `to_string` of
/// what it gives); what they hold is named by [`spec_font_name_records`]
#[verifier::external_body]
fn font_name_records(bytes: &[u8]) -> (r: Option<Vec<Option<NameRecord>>>)
    ensures
        match r {
            None => spec_font_name_records(bytes@) is None,
            Some(v) => spec_font_name_records(bytes@) == Some(
                v@.map_values(|n: Option<NameRecord>| slot_view(n)),
            ),
        },
{
    let face = ttf_parser::Face::parse(bytes, 0).ok()?;
    let names = face.names();
    let mut v = Vec::new();
    for i in 0..names.len() {
        v.push(names.get(i).map(
            |n| NameRecord { name_id: n.name_id, is_unicode: n.is_unicode(), text: n.to_string() },
        ));
    }
    Some(v)
}

/// the record is there and gives a usable name of id `want`
pub open spec fn spec_usable(r: Option<(u16, bool, Option<Seq<char>>)>, want: u16) -> bool {
    r matches Some(x) && x.0 == want && x.1 && x.2 is Some && spec_trim(x.2.unwrap()).len() > 0
}

/// the trimmed text of the first usable record of id `want`, if any
pub open spec fn spec_first_usable(rs: Seq<Option<(u16, bool, Option<Seq<char>>)>>, want: u16) -> Option<
    Seq<char>,
> {
    if exists|k: int| 0 <= k < rs.len() && spec_usable(rs[k], want) {
        let k = choose|k: int|
            0 <= k < rs.len() && spec_usable(rs[k], want) && forall|j: int|
                0 <= j < k ==> !spec_usable(rs[j], want);
        Some(spec_trim(rs[k].unwrap().2.unwrap()))
    } else {
        None
    }
}

/// the preferred name in a font's name records: the full font name (id
/// 4), else the typographic family (id 16), else the family (id 1)
pub open spec fn spec_pick_font_name(rs: Seq<Option<(u16, bool, Option<Seq<char>>)>>) -> Option<Seq<char>> {
    match spec_first_usable(rs, 4) {
        Some(n) => Some(n),
        None => match spec_first_usable(rs, 16) {
            Some(n) => Some(n),
            None => spec_first_usable(rs, 1),
        },
    }
}

/// the trimmed text of the first usable record of id `want`
fn first_usable(records: &Vec<Option<NameRecord>>, want: u16) -> (r: Option<String>)
    ensures
        match r {
            None => spec_first_usable(records@.map_values(|n: Option<NameRecord>| slot_view(n)), want)
                is None,
            Some(t) => spec_first_usable(records@.map_values(|n: Option<NameRecord>| slot_view(n)), want)
                == Some(t@),
        },
{
    let ghost rs = records@.map_values(|n: Option<NameRecord>| slot_view(n));
    let mut i: usize = 0;
    while i < records.len()
        invariant
            i <= records@.len(),
            rs == records@.map_values(|n: Option<NameRecord>| slot_view(n)),
            forall|j: int| 0 <= j < i ==> !spec_usable(#[trigger] rs[j], want),
        decreases records.len() - i,
    {
        let text: Option<&String> = match &records[i] {
            Some(rec) => if rec.name_id == want && rec.is_unicode {
                match &rec.text {
                    Some(t) => Some(t),
                    None => None,
                }
            } else {
                None
            },
            None => None,
        };
        match text {
            Some(t) => {
                let chars = str_to_chars(t.as_str());
                let trimmed = trim_chars(&chars);
                if trimmed.len() > 0 {
                    proof {
                        assert(spec_usable(rs[i as int], want));
                        let k = choose|k: int|
                            0 <= k < rs.len() && spec_usable(rs[k], want) && forall|j: int|
                                0 <= j < k ==> !spec_usable(rs[j], want);
                        if k < i {
                            assert(!spec_usable(rs[k], want));
                        } else if k > i {
                            assert(!spec_usable(rs[i as int], want));
                        }
                    }
                    return Some(string_from_chars(&trimmed));
                } else {
                    proof {
                        assert(!spec_usable(rs[i as int], want));
                    }
                }
            },
            None => {
                proof {
                    assert(!spec_usable(rs[i as int], want));
                }
            },
        }
        i = i + 1;
    }
    None
}

/// the preferred name among a font's name records (one per index of its
/// `name` table, `None` where the table gives none): the trimmed text of
/// the first Unicode record with non-blank text of id 4 (full font name),
/// else 16 (typographic family), else 1 (family)
pub fn pick_font_name(records: &Vec<Option<NameRecord>>) -> (r: Option<String>)
    ensures
        match spec_pick_font_name(records@.map_values(|n: Option<NameRecord>| slot_view(n))) {
            None => r is None,
            Some(n) => r matches Some(t) && t@ == n,
        },
{
    match first_usable(records, 4) {
        Some(n) => Some(n),
        None => match first_usable(records, 16) {
            Some(n) => Some(n),
            None => first_usable(records, 1),
        },
    }
}

/// Extract a human-readable name from a font's OpenType `name` table,
/// preferring the full font name (id 4), then the typographic family (id
/// 16), then the family (id 1), each from a Unicode record whose decoded
/// text is not blank (trimmed); `None` when the bytes are not a font or no
/// record qualifies
pub fn embedded_font_name(bytes: &[u8]) -> (r: Option<String>)
    ensures
        match spec_font_name_records(bytes@) {
            None => r is None,
            Some(rs) => match spec_pick_font_name(rs) {
                None => r is None,
                Some(n) => r matches Some(t) && t@ == n,
            },
        },
{
    let records = match font_name_records(bytes) {
        Some(v) => v,
        None => {
            return None;
        },
    };
    pick_font_name(&records)
}

} // verus!
