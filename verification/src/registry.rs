//! The registry file format: how the installed extension records are
//! persisted as JSON text and read back.
//!
//! The file holds one object with one key, `extensions`, whose value
//! lists the persisted fields of each record: name, version, the two
//! local paths, and the enabled flag.  Runtime-only state (`loaded`,
//! the method table) is never written.  The library writes the file in
//! a canonical single-line form; the reader accepts the JSON shape
//! itself — insignificant whitespace anywhere between tokens, the keys
//! of a record in any order, a missing `enabled` read as false, and
//! the standard string escapes (`\u` codes up to 255).  Text outside
//! that shape yields nothing, and the caller treats a non-empty file
//! it cannot read as an error.
//!
//! Parsing inverts rendering: see [`lemma_registry_round_trip`].

use vstd::prelude::*;
use crate::extension::InstalledExtension;
use crate::extension::InstalledExtensionView;
use crate::strutil::chars_to_string;
use crate::strutil::hex_digit;
use crate::strutil::hex_digit_spec;
use crate::strutil::hex_digit_value;
use crate::strutil::hex_value;
use crate::strutil::str_to_chars;

verus! {

/// How one character is escaped inside a JSON string: quotes and
/// backslashes take a backslash, control characters a `\u00XX`
/// escape, everything else stands as it is.
pub open spec fn esc_char(c: char) -> Seq<char> {
    if c == '"' || c == '\\' {
        seq!['\\', c]
    } else if (c as u32) < 32 {
        seq!['\\', 'u', '0', '0', hex_digit_spec((((c as u32) / 16) as u8)), hex_digit_spec((((c as u32) % 16) as u8))]
    } else {
        seq![c]
    }
}

/// A text with every character escaped.
pub open spec fn esc(s: Seq<char>) -> Seq<char>
    decreases s.len(),
{
    if s.len() == 0 {
        Seq::empty()
    } else {
        esc_char(s[0]) + esc(s.skip(1))
    }
}

/// A JSON string literal: the escaped text between quotes.
pub open spec fn jstr(s: Seq<char>) -> Seq<char> {
    seq!['"'] + esc(s) + seq!['"']
}

/// A JSON boolean literal.
pub open spec fn jbool(b: bool) -> Seq<char> {
    if b {
        "true"@
    } else {
        "false"@
    }
}

/// One object member in canonical form: the key, a colon, the value.
pub open spec fn member_json(key: Seq<char>, value: Seq<char>) -> Seq<char> {
    jstr(key) + seq![':'] + value
}

/// The JSON object persisting one record's persisted fields, in
/// canonical form.
pub open spec fn record_json(e: InstalledExtensionView) -> Seq<char> {
    seq!['{'] + member_json("name"@, jstr(e.name))
        + seq![','] + member_json("version"@, jstr(e.version))
        + seq![','] + member_json("definition-path"@, jstr(e.definition_path))
        + seq![','] + member_json("library-path"@, jstr(e.library_path))
        + seq![','] + member_json("enabled"@, jbool(e.enabled))
        + seq!['}']
}

/// The comma-separated list of record objects.
pub open spec fn records_json(exts: Seq<InstalledExtensionView>) -> Seq<char>
    decreases exts.len(),
{
    if exts.len() == 0 {
        Seq::empty()
    } else if exts.len() == 1 {
        record_json(exts[0])
    } else {
        record_json(exts[0]) + ","@ + records_json(exts.skip(1))
    }
}

/// The whole registry file in canonical form: the record list under
/// the `extensions` key.
pub open spec fn registry_json(exts: Seq<InstalledExtensionView>) -> Seq<char> {
    seq!['{'] + member_json("extensions"@, seq!['['] + records_json(exts) + seq![']']) + seq!['}']
}

/// Concatenation with a separator reassociates.
proof fn lemma_sep_assoc(x: Seq<char>, w: Seq<char>, y: Seq<char>, z: Seq<char>)
    ensures
        x + w + (y + w + z) == (x + w + y) + w + z,
{
    assert(x + w + (y + w + z) =~= (x + w + y) + w + z);
}

/// Appending a record to a non-empty list appends a comma and its
/// object to the rendered list.
proof fn lemma_records_json_snoc(exts: Seq<InstalledExtensionView>, e: InstalledExtensionView)
    requires
        exts.len() > 0,
    ensures
        records_json(exts.push(e)) == records_json(exts) + ","@ + record_json(e),
    decreases exts.len(),
{
    let first = record_json(exts[0]);
    let last = record_json(e);
    if exts.len() == 1 {
        assert(exts.push(e).len() == 2);
        assert(exts.push(e)[0] == exts[0]);
        assert(exts.push(e).skip(1) =~= seq![e]);
        assert(records_json(seq![e]) == last);
    } else {
        let rest = records_json(exts.skip(1));
        lemma_records_json_snoc(exts.skip(1), e);
        assert(exts.push(e).skip(1) =~= exts.skip(1).push(e));
        assert(exts.push(e)[0] == exts[0]);
        assert(records_json(exts.push(e)) == first + ","@ + (rest + ","@ + last));
        lemma_sep_assoc(first, ","@, rest, last);
    }
}

/// Appends the characters of a string slice.
fn push_str_chars(out: &mut Vec<char>, s: &str)
    ensures
        final(out)@ == old(out)@ + s@,
{
    let n = s.unicode_len();
    let mut i: usize = 0;
    while i < n
        invariant
            n == s@.len(),
            i <= n,
            out@ =~= old(out)@ + s@.subrange(0, i as int),
        decreases n - i,
    {
        out.push(s.get_char(i));
        i = i + 1;
        proof {
            assert(out@ =~= old(out)@ + s@.subrange(0, i as int));
        }
    }
    proof {
        assert(s@.subrange(0, s@.len() as int) =~= s@);
        assert(out@ =~= old(out)@ + s@);
    }
}

/// Escaping distributes over concatenation.
proof fn lemma_esc_concat(a: Seq<char>, b: Seq<char>)
    ensures
        esc(a + b) == esc(a) + esc(b),
    decreases a.len(),
{
    if a.len() == 0 {
        assert(a + b =~= b);
        assert(esc(a) + esc(b) =~= esc(b));
    } else {
        lemma_esc_concat(a.skip(1), b);
        assert((a + b).skip(1) =~= a.skip(1) + b);
        assert((a + b)[0] == a[0]);
        assert(esc_char(a[0]) + (esc(a.skip(1)) + esc(b))
            =~= (esc_char(a[0]) + esc(a.skip(1))) + esc(b));
        assert(esc(a) =~= esc_char(a[0]) + esc(a.skip(1)));
    }
}

/// Appends a JSON string literal for the given text.
fn push_jstr(out: &mut Vec<char>, s: &str)
    ensures
        final(out)@ == old(out)@ + jstr(s@),
{
    out.push('"');
    let n = s.unicode_len();
    let mut i: usize = 0;
    while i < n
        invariant
            n == s@.len(),
            i <= n,
            out@ =~= old(out)@ + seq!['"'] + esc(s@.subrange(0, i as int)),
        decreases n - i,
    {
        let c = s.get_char(i);
        if c == '"' || c == '\\' {
            out.push('\\');
            out.push(c);
        } else if (c as u32) < 32 {
            let v = c as u32;
            out.push('\\');
            out.push('u');
            out.push('0');
            out.push('0');
            out.push(hex_digit((v / 16) as u8));
            out.push(hex_digit((v % 16) as u8));
        } else {
            out.push(c);
        }
        i = i + 1;
        proof {
            assert(s@.subrange(0, i as int) =~= s@.subrange(0, i - 1) + seq![s@[i - 1]]);
            lemma_esc_concat(s@.subrange(0, i - 1), seq![s@[i - 1]]);
            assert(seq![s@[i - 1]].skip(1) =~= Seq::<char>::empty());
            assert(esc(Seq::<char>::empty()) =~= Seq::<char>::empty());
            assert(esc(seq![s@[i - 1]]) =~= esc_char(s@[i - 1]));
            assert(out@ =~= old(out)@ + seq!['"'] + esc(s@.subrange(0, i as int)));
        }
    }
    out.push('"');
    proof {
        assert(s@.subrange(0, s@.len() as int) =~= s@);
        assert(out@ =~= old(out)@ + jstr(s@));
    }
}

/// Appends the record object for one installed extension.
#[verifier::rlimit(100)]
fn push_record(out: &mut Vec<char>, e: &InstalledExtension)
    ensures
        final(out)@ == old(out)@ + record_json(e@),
{
    out.push('{');
    push_jstr(out, "name");
    out.push(':');
    push_jstr(out, e.name.as_str());
    out.push(',');
    push_jstr(out, "version");
    out.push(':');
    push_jstr(out, e.version.as_str());
    out.push(',');
    push_jstr(out, "definition-path");
    out.push(':');
    push_jstr(out, e.definition_path.as_str());
    out.push(',');
    push_jstr(out, "library-path");
    out.push(':');
    push_jstr(out, e.library_path.as_str());
    out.push(',');
    push_jstr(out, "enabled");
    out.push(':');
    if e.enabled {
        push_str_chars(out, "true");
    } else {
        push_str_chars(out, "false");
    }
    out.push('}');
    proof {
        assert(out@ =~= old(out)@ + record_json(e@));
    }
}

/// Renders the registry file for the given records, in its canonical
/// single-line form.
pub fn render_registry(extensions: &Vec<InstalledExtension>) -> (r: String)
    ensures
        r@ == registry_json(extensions@.map_values(|e: InstalledExtension| e@)),
{
    let ghost extsv = extensions@.map_values(|e: InstalledExtension| e@);
    let mut out: Vec<char> = Vec::new();
    out.push('{');
    push_jstr(&mut out, "extensions");
    out.push(':');
    out.push('[');
    let ghost head = out@;
    proof {
        assert(records_json(extsv.subrange(0, 0)) == Seq::<char>::empty());
        assert(out@ =~= head + records_json(extsv.subrange(0, 0)));
    }
    let mut i: usize = 0;
    while i < extensions.len()
        invariant
            i <= extsv.len(),
            extensions@.map_values(|e: InstalledExtension| e@) == extsv,
            extensions@.len() == extsv.len(),
            out@ =~= head + records_json(extsv.subrange(0, i as int)),
        decreases extsv.len() - i,
    {
        let ghost prev = out@;
        if i > 0 {
            out.push(',');
        }
        push_record(&mut out, &extensions[i]);
        i = i + 1;
        proof {
            let rec = record_json(extsv[i - 1]);
            let before = records_json(extsv.subrange(0, i - 1));
            assert(extsv.subrange(0, i as int) =~= extsv.subrange(0, i - 1).push(extsv[i - 1]));
            assert(extensions@[i - 1]@ == extsv[i - 1]);
            if i == 1 {
                assert(records_json(extsv.subrange(0, 0)) == Seq::<char>::empty());
                assert(prev =~= head);
                assert(out@ == prev + rec);
                assert(extsv.subrange(0, 1).len() == 1);
                assert(records_json(extsv.subrange(0, 1)) == rec);
                assert(out@ == head + records_json(extsv.subrange(0, i as int)));
            } else {
                lemma_records_json_snoc(extsv.subrange(0, i - 1), extsv[i - 1]);
                assert(records_json(extsv.subrange(0, i as int)) == before + ","@ + rec);
                reveal_strlit(",");
                assert(prev.push(',') =~= prev + ","@);
                assert(out@ == (prev + ","@) + rec);
                assert(prev == head + before);
                assert((head + before) + ","@ =~= head + (before + ","@));
                assert(head + (before + ","@) + rec =~= head + ((before + ","@) + rec));
                assert((before + ","@) + rec =~= before + ","@ + rec);
                assert(out@ =~= head + records_json(extsv.subrange(0, i as int)));
            }
        }
    }
    out.push(']');
    out.push('}');
    proof {
        assert(extsv.subrange(0, extsv.len() as int) =~= extsv);
        assert(out@ =~= registry_json(extsv));
    }
    chars_to_string(&out)
}

/// Whether a character is insignificant JSON whitespace.
pub open spec fn is_ws(c: char) -> bool {
    c == ' ' || c == '\t' || c == '\n' || c == '\r'
}

/// The first position at or after `i` holding something other than
/// whitespace, or the end of the text.
pub open spec fn skip_ws(inp: Seq<char>, i: int) -> int
    decreases inp.len() - i,
{
    if 0 <= i < inp.len() && is_ws(inp[i]) {
        skip_ws(inp, i + 1)
    } else {
        i
    }
}

/// One step of parsing a JSON string body: characters accumulate into
/// `acc` until the closing quote.  A backslash escapes a quote, a
/// backslash, a slash, the usual control-character names, or a
/// `\u00XX` code; raw control characters are rejected.
pub open spec fn sparse_string_body(inp: Seq<char>, i: int, acc: Seq<char>) -> Option<(Seq<char>, int)>
    decreases inp.len() - i,
{
    if i < 0 || i >= inp.len() {
        Option::None
    } else if inp[i] == '"' {
        Option::Some((acc, i + 1))
    } else if inp[i] == '\\' {
        if i + 1 >= inp.len() {
            Option::None
        } else {
            let e = inp[i + 1];
            if e == '"' || e == '\\' || e == '/' {
                sparse_string_body(inp, i + 2, acc.push(e))
            } else if e == 'n' {
                sparse_string_body(inp, i + 2, acc.push('\n'))
            } else if e == 't' {
                sparse_string_body(inp, i + 2, acc.push('\t'))
            } else if e == 'r' {
                sparse_string_body(inp, i + 2, acc.push('\r'))
            } else if e == 'b' {
                sparse_string_body(inp, i + 2, acc.push('\u{8}'))
            } else if e == 'f' {
                sparse_string_body(inp, i + 2, acc.push('\u{c}'))
            } else if e == 'u' {
                if i + 5 < inp.len() && inp[i + 2] == '0' && inp[i + 3] == '0' {
                    match (hex_value(inp[i + 4]), hex_value(inp[i + 5])) {
                        (Option::Some(hi), Option::Some(lo)) =>
                            sparse_string_body(inp, i + 6, acc.push(((16 * hi + lo) as u8) as char)),
                        _ => Option::None,
                    }
                } else {
                    Option::None
                }
            } else {
                Option::None
            }
        }
    } else if (inp[i] as u32) < 32 {
        Option::None
    } else {
        sparse_string_body(inp, i + 1, acc.push(inp[i]))
    }
}

/// Parses a JSON string literal starting at `i`: the unescaped text
/// and the position after the closing quote.
pub open spec fn sparse_string(inp: Seq<char>, i: int) -> Option<(Seq<char>, int)> {
    if 0 <= i < inp.len() && inp[i] == '"' {
        sparse_string_body(inp, i + 1, Seq::empty())
    } else {
        Option::None
    }
}

/// Whether the text carries exactly `lit` at position `i`.
pub open spec fn at_lit(inp: Seq<char>, i: int, lit: Seq<char>) -> bool {
    0 <= i && i + lit.len() <= inp.len() && inp.subrange(i, i + lit.len()) == lit
}

/// Parses a JSON boolean literal starting at `i`.
pub open spec fn sparse_bool(inp: Seq<char>, i: int) -> Option<(bool, int)> {
    if at_lit(inp, i, "true"@) {
        Option::Some((true, i + 4))
    } else if at_lit(inp, i, "false"@) {
        Option::Some((false, i + 5))
    } else {
        Option::None
    }
}

/// A record object part-way through parsing: which fields its members
/// have supplied so far.
#[verifier::ext_equal]
pub ghost struct PartialRecord {
    pub name: Option<Seq<char>>,
    pub version: Option<Seq<char>>,
    pub definition_path: Option<Seq<char>>,
    pub library_path: Option<Seq<char>>,
    pub enabled: Option<bool>,
}

/// No fields supplied yet.
pub open spec fn empty_partial() -> PartialRecord {
    PartialRecord {
        name: Option::None,
        version: Option::None,
        definition_path: Option::None,
        library_path: Option::None,
        enabled: Option::None,
    }
}

/// Parses the value of one record member, dispatching on the key.  A
/// key outside the record's five fields, or supplied twice, is
/// rejected, as the original reader rejected duplicates.
pub open spec fn member_value(inp: Seq<char>, i: int, key: Seq<char>, acc: PartialRecord) -> Option<(PartialRecord, int)> {
    if key == "name"@ {
        if acc.name is Some {
            Option::None
        } else {
            match sparse_string(inp, i) {
                Option::Some((v, j)) => Option::Some((PartialRecord { name: Option::Some(v), ..acc }, j)),
                Option::None => Option::None,
            }
        }
    } else if key == "version"@ {
        if acc.version is Some {
            Option::None
        } else {
            match sparse_string(inp, i) {
                Option::Some((v, j)) => Option::Some((PartialRecord { version: Option::Some(v), ..acc }, j)),
                Option::None => Option::None,
            }
        }
    } else if key == "definition-path"@ {
        if acc.definition_path is Some {
            Option::None
        } else {
            match sparse_string(inp, i) {
                Option::Some((v, j)) => Option::Some((PartialRecord { definition_path: Option::Some(v), ..acc }, j)),
                Option::None => Option::None,
            }
        }
    } else if key == "library-path"@ {
        if acc.library_path is Some {
            Option::None
        } else {
            match sparse_string(inp, i) {
                Option::Some((v, j)) => Option::Some((PartialRecord { library_path: Option::Some(v), ..acc }, j)),
                Option::None => Option::None,
            }
        }
    } else if key == "enabled"@ {
        if acc.enabled is Some {
            Option::None
        } else {
            match sparse_bool(inp, i) {
                Option::Some((b, j)) => Option::Some((PartialRecord { enabled: Option::Some(b), ..acc }, j)),
                Option::None => Option::None,
            }
        }
    } else {
        Option::None
    }
}

/// Parses a record object's members from the position just after its
/// opening brace (or a separating comma): key, colon, value, then
/// either a comma and further members or the closing brace.
pub open spec fn sparse_members(inp: Seq<char>, i: int, acc: PartialRecord) -> Option<(PartialRecord, int)>
    decreases inp.len() - i,
{
    let jk = skip_ws(inp, i);
    match sparse_string(inp, jk) {
        Option::None => Option::None,
        Option::Some((key, jke)) => {
            let jc = skip_ws(inp, jke);
            if !(jc < inp.len() && inp[jc] == ':') {
                Option::None
            } else {
                let jv = skip_ws(inp, jc + 1);
                match member_value(inp, jv, key, acc) {
                    Option::None => Option::None,
                    Option::Some((acc2, jve)) => {
                        let jn = skip_ws(inp, jve);
                        if jn < inp.len() && inp[jn] == ',' {
                            if i < jn + 1 {
                                sparse_members(inp, jn + 1, acc2)
                            } else {
                                Option::None
                            }
                        } else if jn < inp.len() && inp[jn] == '}' {
                            Option::Some((acc2, jn + 1))
                        } else {
                            Option::None
                        }
                    },
                }
            }
        },
    }
}

/// The record a completed object denotes: the four path and identity
/// fields must have been supplied, a missing `enabled` reads as
/// false, and runtime-only state is reset.
pub open spec fn finish_record(acc: PartialRecord) -> Option<InstalledExtensionView> {
    match (acc.name, acc.version, acc.definition_path, acc.library_path) {
        (Option::Some(name), Option::Some(version), Option::Some(definition_path), Option::Some(library_path)) =>
            Option::Some(InstalledExtensionView {
                name,
                version,
                definition_path,
                library_path,
                enabled: match acc.enabled {
                    Option::Some(b) => b,
                    Option::None => false,
                },
                loaded: false,
                methods: Seq::empty(),
            }),
        _ => Option::None,
    }
}

/// Parses one record object starting exactly at its opening brace.
pub open spec fn sparse_record(inp: Seq<char>, i: int) -> Option<(InstalledExtensionView, int)> {
    if 0 <= i < inp.len() && inp[i] == '{' {
        match sparse_members(inp, i + 1, empty_partial()) {
            Option::None => Option::None,
            Option::Some((acc, j)) => match finish_record(acc) {
                Option::Some(e) => Option::Some((e, j)),
                Option::None => Option::None,
            },
        }
    } else {
        Option::None
    }
}

/// Parses a comma-separated list of record objects, each starting
/// where whitespace has already been skipped, appending onto `acc`;
/// ends after the first record not followed by a comma.
pub open spec fn sparse_records(inp: Seq<char>, i: int, acc: Seq<InstalledExtensionView>) -> Option<(Seq<InstalledExtensionView>, int)>
    decreases inp.len() - i,
{
    match sparse_record(inp, i) {
        Option::None => Option::None,
        Option::Some((e, j)) => {
            let jn = skip_ws(inp, j);
            if jn < inp.len() && inp[jn] == ',' {
                let jr = skip_ws(inp, jn + 1);
                if i < jr && jr <= inp.len() {
                    sparse_records(inp, jr, acc.push(e))
                } else {
                    Option::None
                }
            } else {
                Option::Some((acc.push(e), j))
            }
        },
    }
}

/// The closing of the registry object: a brace and nothing but
/// whitespace behind it.
pub open spec fn sparse_registry_end(inp: Seq<char>, i: int, records: Seq<InstalledExtensionView>) -> Option<Seq<InstalledExtensionView>> {
    let j = skip_ws(inp, i);
    if j < inp.len() && inp[j] == '}' {
        if skip_ws(inp, j + 1) == inp.len() {
            Option::Some(records)
        } else {
            Option::None
        }
    } else {
        Option::None
    }
}

/// Parses a whole registry file: one object whose single member,
/// `extensions`, lists the records.
pub open spec fn sparse_registry(inp: Seq<char>) -> Option<Seq<InstalledExtensionView>> {
    let j0 = skip_ws(inp, 0);
    if !(j0 < inp.len() && inp[j0] == '{') {
        Option::None
    } else {
        match sparse_string(inp, skip_ws(inp, j0 + 1)) {
            Option::None => Option::None,
            Option::Some((key, j1)) => if key != "extensions"@ {
                Option::None
            } else {
                let j2 = skip_ws(inp, j1);
                if !(j2 < inp.len() && inp[j2] == ':') {
                    Option::None
                } else {
                    let j3 = skip_ws(inp, j2 + 1);
                    if !(j3 < inp.len() && inp[j3] == '[') {
                        Option::None
                    } else {
                        let j4 = skip_ws(inp, j3 + 1);
                        if j4 < inp.len() && inp[j4] == ']' {
                            sparse_registry_end(inp, j4 + 1, Seq::empty())
                        } else {
                            match sparse_records(inp, j4, Seq::empty()) {
                                Option::None => Option::None,
                                Option::Some((records, j5)) => {
                                    let j6 = skip_ws(inp, j5);
                                    if j6 < inp.len() && inp[j6] == ']' {
                                        sparse_registry_end(inp, j6 + 1, records)
                                    } else {
                                        Option::None
                                    }
                                },
                            }
                        }
                    }
                }
            },
        }
    }
}

/// A lone record object with nothing but whitespace around it.
pub open spec fn sparse_record_document(inp: Seq<char>) -> Option<InstalledExtensionView> {
    match sparse_record(inp, skip_ws(inp, 0)) {
        Option::None => Option::None,
        Option::Some((e, j)) => if skip_ws(inp, j) == inp.len() {
            Option::Some(e)
        } else {
            Option::None
        },
    }
}


/// Steps past insignificant whitespace.
fn skip_ws_exec(inp: &Vec<char>, i: usize) -> (r: usize)
    requires
        i <= inp@.len(),
    ensures
        r == skip_ws(inp@, i as int),
        i <= r <= inp@.len(),
{
    let mut j = i;
    while j < inp.len() && (inp[j] == ' ' || inp[j] == '\t' || inp[j] == '\n' || inp[j] == '\r')
        invariant
            i <= j <= inp@.len(),
            skip_ws(inp@, i as int) == skip_ws(inp@, j as int),
        decreases inp@.len() - j,
    {
        j = j + 1;
        proof {
            assert(skip_ws(inp@, j - 1) == skip_ws(inp@, j as int));
        }
    }
    proof {
        assert(skip_ws(inp@, j as int) == j);
    }
    j
}

/// Parses a JSON string literal at position `i`: the unescaped text
/// and the position after the closing quote.
fn parse_string(inp: &Vec<char>, start: usize) -> (r: Option<(Vec<char>, usize)>)
    requires
        start <= inp@.len(),
    ensures
        match r {
            Option::Some(p) => sparse_string(inp@, start as int) == Option::Some((p.0@, p.1 as int))
                && start < p.1 <= inp@.len(),
            Option::None => sparse_string(inp@, start as int) is None,
        },
{
    if start >= inp.len() || inp[start] != '"' {
        return None;
    }
    let mut j: usize = start + 1;
    let mut acc: Vec<char> = Vec::new();
    while j < inp.len()
        invariant
            start + 1 <= j <= inp@.len(),
            sparse_string(inp@, start as int) == sparse_string_body(inp@, j as int, acc@),
        decreases inp@.len() - j,
    {
        let c = inp[j];
        if c == '"' {
            proof {
                assert(sparse_string_body(inp@, j as int, acc@) == Option::Some((acc@, j + 1 as int)));
            }
            return Some((acc, j + 1));
        }
        if c == '\\' {
            if j + 1 >= inp.len() {
                proof {
                    assert(sparse_string_body(inp@, j as int, acc@) is None);
                }
                return None;
            }
            let e = inp[j + 1];
            if e == '"' || e == '\\' || e == '/' {
                acc.push(e);
                j = j + 2;
            } else if e == 'n' {
                acc.push('\n');
                j = j + 2;
            } else if e == 't' {
                acc.push('\t');
                j = j + 2;
            } else if e == 'r' {
                acc.push('\r');
                j = j + 2;
            } else if e == 'b' {
                acc.push('\u{8}');
                j = j + 2;
            } else if e == 'f' {
                acc.push('\u{c}');
                j = j + 2;
            } else if e == 'u' {
                if inp.len() - j > 5 && inp[j + 2] == '0' && inp[j + 3] == '0' {
                    let hi = match hex_digit_value(inp[j + 4]) {
                        Option::Some(v) => v,
                        Option::None => {
                            proof {
                                assert(sparse_string_body(inp@, j as int, acc@) is None);
                            }
                            return None;
                        },
                    };
                    let lo = match hex_digit_value(inp[j + 5]) {
                        Option::Some(v) => v,
                        Option::None => {
                            proof {
                                assert(sparse_string_body(inp@, j as int, acc@) is None);
                            }
                            return None;
                        },
                    };
                    acc.push((16 * hi + lo) as char);
                    j = j + 6;
                } else {
                    proof {
                        assert(sparse_string_body(inp@, j as int, acc@) is None);
                    }
                    return None;
                }
            } else {
                proof {
                    assert(sparse_string_body(inp@, j as int, acc@) is None);
                }
                return None;
            }
        } else if (c as u32) < 32 {
            proof {
                assert(sparse_string_body(inp@, j as int, acc@) is None);
            }
            return None;
        } else {
            acc.push(c);
            j = j + 1;
        }
    }
    proof {
        assert(sparse_string_body(inp@, j as int, acc@) is None);
    }
    None
}

/// Checks for the literal `lit` at position `i` and steps past it.
fn expect_lit(inp: &Vec<char>, i: usize, lit: &str) -> (r: Option<usize>)
    requires
        i <= inp@.len(),
    ensures
        match r {
            Option::Some(j) => at_lit(inp@, i as int, lit@) && j == i + lit@.len(),
            Option::None => !at_lit(inp@, i as int, lit@),
        },
{
    let n = lit.unicode_len();
    let total = inp.len();
    if total - i < n {
        return None;
    }
    let mut k: usize = 0;
    while k < n
        invariant
            n == lit@.len(),
            total == inp@.len(),
            i + n <= total,
            k <= n,
            forall|m: int| 0 <= m < k ==> inp@[i + m] == lit@[m],
        decreases n - k,
    {
        if inp[i + k] != lit.get_char(k) {
            proof {
                assert(inp@.subrange(i as int, i + n)[k as int] != lit@[k as int]);
            }
            return None;
        }
        k = k + 1;
    }
    proof {
        assert(inp@.subrange(i as int, i + n) =~= lit@);
    }
    Some(i + n)
}

/// Parses a JSON boolean literal at position `i`.
fn parse_bool(inp: &Vec<char>, i: usize) -> (r: Option<(bool, usize)>)
    requires
        i <= inp@.len(),
    ensures
        match r {
            Option::Some(p) => sparse_bool(inp@, i as int) == Option::Some((p.0, p.1 as int))
                && i < p.1 <= inp@.len(),
            Option::None => sparse_bool(inp@, i as int) is None,
        },
{
    match expect_lit(inp, i, "true") {
        Option::Some(j) => {
            proof {
                reveal_strlit("true");
            }
            Some((true, j))
        },
        Option::None => match expect_lit(inp, i, "false") {
            Option::Some(j) => {
                proof {
                    reveal_strlit("false");
                }
                Some((false, j))
            },
            Option::None => None,
        },
    }
}

/// Compares a parsed key against a field name.
fn key_is(key: &Vec<char>, name: &str) -> (r: bool)
    ensures
        r == (key@ == name@),
{
    let n = name.unicode_len();
    if key.len() != n {
        proof {
            assert(key@.len() != name@.len());
        }
        return false;
    }
    let mut i: usize = 0;
    while i < n
        invariant
            n == name@.len(),
            key@.len() == n,
            i <= n,
            forall|k: int| 0 <= k < i ==> key@[k] == name@[k],
        decreases n - i,
    {
        if key[i] != name.get_char(i) {
            return false;
        }
        i = i + 1;
    }
    proof {
        assert(key@ =~= name@);
    }
    true
}

/// The view of the partially read record the five locals denote.
pub open spec fn partial_of(
    name: Option<Vec<char>>,
    version: Option<Vec<char>>,
    definition_path: Option<Vec<char>>,
    library_path: Option<Vec<char>>,
    enabled: Option<bool>,
) -> PartialRecord {
    PartialRecord {
        name: match name { Option::Some(v) => Option::Some(v@), Option::None => Option::None },
        version: match version { Option::Some(v) => Option::Some(v@), Option::None => Option::None },
        definition_path: match definition_path { Option::Some(v) => Option::Some(v@), Option::None => Option::None },
        library_path: match library_path { Option::Some(v) => Option::Some(v@), Option::None => Option::None },
        enabled,
    }
}

/// Parses one record object at position `i`, its opening brace
/// included.
fn parse_record(inp: &Vec<char>, i: usize) -> (r: Option<(InstalledExtension, usize)>)
    requires
        i <= inp@.len(),
    ensures
        match r {
            Option::Some(p) => sparse_record(inp@, i as int) == Option::Some((p.0@, p.1 as int))
                && i < p.1 <= inp@.len(),
            Option::None => sparse_record(inp@, i as int) is None,
        },
{
    if i >= inp.len() || inp[i] != '{' {
        return None;
    }
    let mut name: Option<Vec<char>> = None;
    let mut version: Option<Vec<char>> = None;
    let mut definition_path: Option<Vec<char>> = None;
    let mut library_path: Option<Vec<char>> = None;
    let mut enabled: Option<bool> = None;
    let mut cur: usize = i + 1;
    loop
        invariant
            i < cur <= inp@.len(),
            i < inp@.len(),
            inp@[i as int] == '{',
            sparse_members(inp@, i + 1 as int, empty_partial())
                == sparse_members(inp@, cur as int, partial_of(name, version, definition_path, library_path, enabled)),
        decreases inp@.len() - cur,
    {
        let ghost acc0 = partial_of(name, version, definition_path, library_path, enabled);
        let jk = skip_ws_exec(inp, cur);
        let (key, jke) = match parse_string(inp, jk) {
            Option::Some(p) => p,
            Option::None => {
                proof {
                    assert(sparse_members(inp@, cur as int, acc0) is None);
                }
                return None;
            },
        };
        let jc = skip_ws_exec(inp, jke);
        if !(jc < inp.len() && inp[jc] == ':') {
            proof {
                assert(sparse_members(inp@, cur as int, acc0) is None);
            }
            return None;
        }
        let jv = skip_ws_exec(inp, jc + 1);
        let jve: usize;
        if key_is(&key, "name") {
            if name.is_some() {
                proof {
                    assert(member_value(inp@, jv as int, key@, acc0) is None);
                    assert(sparse_members(inp@, cur as int, acc0) is None);
                }
                return None;
            }
            match parse_string(inp, jv) {
                Option::Some((v, j)) => {
                    name = Some(v);
                    jve = j;
                },
                Option::None => {
                    proof {
                        assert(member_value(inp@, jv as int, key@, acc0) is None);
                        assert(sparse_members(inp@, cur as int, acc0) is None);
                    }
                    return None;
                },
            }
        } else if key_is(&key, "version") {
            if version.is_some() {
                proof {
                    assert(member_value(inp@, jv as int, key@, acc0) is None);
                    assert(sparse_members(inp@, cur as int, acc0) is None);
                }
                return None;
            }
            match parse_string(inp, jv) {
                Option::Some((v, j)) => {
                    version = Some(v);
                    jve = j;
                },
                Option::None => {
                    proof {
                        assert(member_value(inp@, jv as int, key@, acc0) is None);
                        assert(sparse_members(inp@, cur as int, acc0) is None);
                    }
                    return None;
                },
            }
        } else if key_is(&key, "definition-path") {
            if definition_path.is_some() {
                proof {
                    assert(member_value(inp@, jv as int, key@, acc0) is None);
                    assert(sparse_members(inp@, cur as int, acc0) is None);
                }
                return None;
            }
            match parse_string(inp, jv) {
                Option::Some((v, j)) => {
                    definition_path = Some(v);
                    jve = j;
                },
                Option::None => {
                    proof {
                        assert(member_value(inp@, jv as int, key@, acc0) is None);
                        assert(sparse_members(inp@, cur as int, acc0) is None);
                    }
                    return None;
                },
            }
        } else if key_is(&key, "library-path") {
            if library_path.is_some() {
                proof {
                    assert(member_value(inp@, jv as int, key@, acc0) is None);
                    assert(sparse_members(inp@, cur as int, acc0) is None);
                }
                return None;
            }
            match parse_string(inp, jv) {
                Option::Some((v, j)) => {
                    library_path = Some(v);
                    jve = j;
                },
                Option::None => {
                    proof {
                        assert(member_value(inp@, jv as int, key@, acc0) is None);
                        assert(sparse_members(inp@, cur as int, acc0) is None);
                    }
                    return None;
                },
            }
        } else if key_is(&key, "enabled") {
            if enabled.is_some() {
                proof {
                    assert(member_value(inp@, jv as int, key@, acc0) is None);
                    assert(sparse_members(inp@, cur as int, acc0) is None);
                }
                return None;
            }
            match parse_bool(inp, jv) {
                Option::Some((b, j)) => {
                    enabled = Some(b);
                    jve = j;
                },
                Option::None => {
                    proof {
                        assert(member_value(inp@, jv as int, key@, acc0) is None);
                        assert(sparse_members(inp@, cur as int, acc0) is None);
                    }
                    return None;
                },
            }
        } else {
            proof {
                assert(member_value(inp@, jv as int, key@, acc0) is None);
                assert(sparse_members(inp@, cur as int, acc0) is None);
            }
            return None;
        }
        let ghost acc2 = partial_of(name, version, definition_path, library_path, enabled);
        proof {
            assert(member_value(inp@, jv as int, key@, acc0) == Option::Some((acc2, jve as int)));
        }
        let jn = skip_ws_exec(inp, jve);
        if jn < inp.len() && inp[jn] == ',' {
            proof {
                assert(sparse_members(inp@, cur as int, acc0) == sparse_members(inp@, jn + 1 as int, acc2));
            }
            cur = jn + 1;
        } else if jn < inp.len() && inp[jn] == '}' {
            proof {
                assert(sparse_members(inp@, cur as int, acc0) == Option::Some((acc2, jn + 1 as int)));
            }
            let (n, v, d, l) = match (name, version, definition_path, library_path) {
                (Option::Some(n), Option::Some(v), Option::Some(d), Option::Some(l)) => (n, v, d, l),
                _ => {
                    proof {
                        assert(finish_record(acc2) is None);
                    }
                    return None;
                },
            };
            let record = InstalledExtension {
                name: chars_to_string(&n),
                version: chars_to_string(&v),
                definition_path: chars_to_string(&d),
                library_path: chars_to_string(&l),
                enabled: match enabled {
                    Option::Some(b) => b,
                    Option::None => false,
                },
                loaded: false,
                methods: Vec::new(),
            };
            proof {
                assert(record@.methods =~= Seq::<crate::extension::ExtensionMethodView>::empty());
                assert(finish_record(acc2) matches Option::Some(e) && record@ =~= e);
            }
            return Some((record, jn + 1));
        } else {
            proof {
                assert(sparse_members(inp@, cur as int, acc0) is None);
            }
            return None;
        }
    }
}

/// Parses a registry file: the installed records it persists, with
/// runtime state reset.  Text outside the registry's JSON shape
/// yields nothing.
pub fn parse_registry(text: &str) -> (r: Option<Vec<InstalledExtension>>)
    ensures
        match r {
            Option::Some(v) => sparse_registry(text@)
                == Option::Some(v@.map_values(|e: InstalledExtension| e@)),
            Option::None => sparse_registry(text@) is None,
        },
{
    let inp = str_to_chars(text);
    let j0 = skip_ws_exec(&inp, 0);
    if !(j0 < inp.len() && inp[j0] == '{') {
        return None;
    }
    let jk = skip_ws_exec(&inp, j0 + 1);
    let (key, j1) = match parse_string(&inp, jk) {
        Option::Some(p) => p,
        Option::None => {
            return None;
        },
    };
    if !key_is(&key, "extensions") {
        return None;
    }
    let j2 = skip_ws_exec(&inp, j1);
    if !(j2 < inp.len() && inp[j2] == ':') {
        return None;
    }
    let j3 = skip_ws_exec(&inp, j2 + 1);
    if !(j3 < inp.len() && inp[j3] == '[') {
        return None;
    }
    let j4 = skip_ws_exec(&inp, j3 + 1);
    if j4 < inp.len() && inp[j4] == ']' {
        let out: Vec<InstalledExtension> = Vec::new();
        proof {
            assert(out@.map_values(|e: InstalledExtension| e@)
                =~= Seq::<InstalledExtensionView>::empty());
        }
        let j5 = skip_ws_exec(&inp, j4 + 1);
        if j5 < inp.len() && inp[j5] == '}' {
            if skip_ws_exec(&inp, j5 + 1) == inp.len() {
                return Some(out);
            }
        }
        return None;
    }
    let mut out: Vec<InstalledExtension> = Vec::new();
    proof {
        assert(out@.map_values(|e: InstalledExtension| e@)
            =~= Seq::<InstalledExtensionView>::empty());
        assert(sparse_registry(inp@) == (match sparse_records(inp@, j4 as int, Seq::<InstalledExtensionView>::empty()) {
            Option::None => Option::<Seq<InstalledExtensionView>>::None,
            Option::Some((records, j5)) => {
                let j6 = skip_ws(inp@, j5);
                if j6 < inp@.len() && inp@[j6] == ']' {
                    sparse_registry_end(inp@, j6 + 1, records)
                } else {
                    Option::None
                }
            },
        }));
    }
    let mut cur: usize = j4;
    loop
        invariant
            cur <= inp@.len(),
            inp@ == text@,
            sparse_registry(inp@) == (match sparse_records(inp@, j4 as int, Seq::<InstalledExtensionView>::empty()) {
                Option::None => Option::<Seq<InstalledExtensionView>>::None,
                Option::Some((records, j5)) => {
                    let j6 = skip_ws(inp@, j5);
                    if j6 < inp@.len() && inp@[j6] == ']' {
                        sparse_registry_end(inp@, j6 + 1, records)
                    } else {
                        Option::None
                    }
                },
            }),
            sparse_records(inp@, j4 as int, Seq::<InstalledExtensionView>::empty())
                == sparse_records(inp@, cur as int, out@.map_values(|e: InstalledExtension| e@)),
        decreases inp@.len() - cur,
    {
        let ghost accv = out@.map_values(|e: InstalledExtension| e@);
        let (record, j) = match parse_record(&inp, cur) {
            Option::Some(p) => p,
            Option::None => {
                proof {
                    assert(sparse_records(inp@, cur as int, accv) is None);
                }
                return None;
            },
        };
        let ghost recv = record@;
        out.push(record);
        proof {
            assert(out@.map_values(|e: InstalledExtension| e@) =~= accv.push(recv));
        }
        let jn = skip_ws_exec(&inp, j);
        if jn < inp.len() && inp[jn] == ',' {
            let jr = skip_ws_exec(&inp, jn + 1);
            proof {
                assert(sparse_records(inp@, cur as int, accv)
                    == sparse_records(inp@, jr as int, accv.push(recv)));
            }
            cur = jr;
        } else {
            proof {
                assert(sparse_records(inp@, cur as int, accv) == Option::Some((accv.push(recv), j as int)));
            }
            let j6 = skip_ws_exec(&inp, j);
            if !(j6 < inp.len() && inp[j6] == ']') {
                return None;
            }
            let j7 = skip_ws_exec(&inp, j6 + 1);
            if j7 < inp.len() && inp[j7] == '}' {
                if skip_ws_exec(&inp, j7 + 1) == inp.len() {
                    proof {
                        assert(sparse_registry(inp@) == Option::Some(accv.push(recv)));
                    }
                    return Some(out);
                }
            }
            return None;
        }
    }
}

impl InstalledExtension {
    /// Reads one installed-extension record from the JSON object form
    /// the registry file uses, with runtime state reset.  Text in any
    /// other shape, or with more than whitespace around the object,
    /// yields nothing.
    pub fn from_json(text: &str) -> (r: Option<InstalledExtension>)
        ensures
            match r {
                Option::Some(e) => sparse_record_document(text@) == Option::Some(e@),
                Option::None => sparse_record_document(text@) is None,
            },
    {
        let inp = str_to_chars(text);
        let j = skip_ws_exec(&inp, 0);
        match parse_record(&inp, j) {
            Option::Some((record, end)) => {
                if skip_ws_exec(&inp, end) == inp.len() {
                    Some(record)
                } else {
                    None
                }
            },
            Option::None => None,
        }
    }
}


/// A known stretch of the text splits at a concatenation boundary.
proof fn lemma_subrange_split(inp: Seq<char>, i: int, a: Seq<char>, b: Seq<char>)
    requires
        0 <= i,
        i + a.len() + b.len() <= inp.len(),
        inp.subrange(i, i + a.len() + b.len()) == a + b,
    ensures
        inp.subrange(i, i + a.len()) == a,
        inp.subrange(i + a.len(), i + a.len() + b.len()) == b,
{
    assert forall|k: int| 0 <= k < a.len() implies inp.subrange(i, i + a.len())[k] == a[k] by {
        assert(inp.subrange(i, i + a.len() + b.len())[k] == (a + b)[k]);
    }
    assert(inp.subrange(i, i + a.len()) =~= a);
    assert forall|k: int| 0 <= k < b.len()
        implies inp.subrange(i + a.len(), i + a.len() + b.len())[k] == b[k] by {
        assert(inp.subrange(i, i + a.len() + b.len())[a.len() + k] == (a + b)[a.len() + k]);
        assert(inp.subrange(i, i + a.len() + b.len())[a.len() + k] == inp[i + a.len() + k]);
        assert((a + b)[a.len() + k] == b[k]);
        assert(inp.subrange(i + a.len(), i + a.len() + b.len())[k] == inp[i + a.len() + k]);
    }
    assert(inp.subrange(i + a.len(), i + a.len() + b.len()) =~= b);
}

/// Skipping whitespace where none stands goes nowhere.
proof fn lemma_skip_at_nonws(inp: Seq<char>, i: int)
    requires
        0 <= i <= inp.len(),
        i < inp.len() ==> !is_ws(inp[i]),
    ensures
        skip_ws(inp, i) == i,
{
}

/// A control character comes back from its code point.
proof fn lemma_control_char_roundtrip(c: char)
    requires
        (c as u32) < 32,
    ensures
        (((c as u32) as u8) as char) == c,
{
    let v = c as u32;
    let d = (v as u8) as char;
    assert(d as u32 == v);
    assert(d == c);
}

/// Parsing a string body over exactly the escaped text of `s`
/// followed by a closing quote yields `s`, appended onto the
/// accumulator.
proof fn lemma_sparse_body_of_esc(inp: Seq<char>, i: int, s: Seq<char>, acc: Seq<char>)
    requires
        0 <= i,
        i + esc(s).len() + 1 <= inp.len(),
        inp.subrange(i, i + esc(s).len()) == esc(s),
        inp[i + esc(s).len()] == '"',
    ensures
        sparse_string_body(inp, i, acc) == Option::Some((acc + s, i + esc(s).len() + 1)),
    decreases s.len(),
{
    if s.len() == 0 {
        assert(esc(s).len() == 0);
        assert(inp[i] == '"');
        assert(acc + s =~= acc);
    } else {
        let c = s[0];
        let rest = s.skip(1);
        assert(esc(s) == esc_char(c) + esc(rest));
        lemma_subrange_split(inp, i, esc_char(c), esc(rest));
        if c == '"' || c == '\\' {
            assert(esc_char(c).len() == 2);
            assert(inp.subrange(i, i + 2)[0] == inp[i]);
            assert(inp.subrange(i, i + 2)[1] == inp[i + 1]);
            assert(inp[i] == '\\');
            assert(inp[i + 1] == c);
            lemma_sparse_body_of_esc(inp, i + 2, rest, acc.push(c));
            assert(acc.push(c) + rest =~= acc + s);
            assert(sparse_string_body(inp, i, acc)
                == sparse_string_body(inp, i + 2, acc.push(c)));
        } else if (c as u32) < 32 {
            let v = c as u32;
            assert(esc_char(c).len() == 6);
            assert(inp.subrange(i, i + 6)[0] == inp[i]);
            assert(inp.subrange(i, i + 6)[1] == inp[i + 1]);
            assert(inp.subrange(i, i + 6)[2] == inp[i + 2]);
            assert(inp.subrange(i, i + 6)[3] == inp[i + 3]);
            assert(inp.subrange(i, i + 6)[4] == inp[i + 4]);
            assert(inp.subrange(i, i + 6)[5] == inp[i + 5]);
            assert(inp[i] == '\\');
            assert(inp[i + 1] == 'u');
            assert(inp[i + 2] == '0');
            assert(inp[i + 3] == '0');
            assert(inp[i + 4] == hex_digit_spec(((v / 16) as u8)));
            assert(inp[i + 5] == hex_digit_spec(((v % 16) as u8)));
            assert(hex_value(hex_digit_spec(((v / 16) as u8))) == Option::Some(((v / 16) as u8)));
            assert(hex_value(hex_digit_spec(((v % 16) as u8))) == Option::Some(((v % 16) as u8)));
            vstd::arithmetic::div_mod::lemma_fundamental_div_mod(v as int, 16);
            assert(16 * ((v / 16) as u8) + ((v % 16) as u8) == v);
            assert(((16 * ((v / 16) as u8) + ((v % 16) as u8)) as u8) == (v as u8));
            lemma_control_char_roundtrip(c);
            assert(((16 * ((v / 16) as u8) + ((v % 16) as u8)) as u8) as char == c);
            lemma_sparse_body_of_esc(inp, i + 6, rest, acc.push(c));
            assert(acc.push(c) + rest =~= acc + s);
            assert(sparse_string_body(inp, i, acc)
                == sparse_string_body(inp, i + 6, acc.push(c)));
        } else {
            assert(esc_char(c).len() == 1);
            assert(inp.subrange(i, i + 1)[0] == inp[i]);
            assert(inp[i] == c);
            lemma_sparse_body_of_esc(inp, i + 1, rest, acc.push(c));
            assert(acc.push(c) + rest =~= acc + s);
            assert(sparse_string_body(inp, i, acc)
                == sparse_string_body(inp, i + 1, acc.push(c)));
        }
    }
}

/// Parsing a string at the start of a rendered string literal yields
/// exactly the text the literal renders.
proof fn lemma_sparse_string_of_jstr(inp: Seq<char>, i: int, s: Seq<char>)
    requires
        0 <= i,
        i + jstr(s).len() <= inp.len(),
        inp.subrange(i, i + jstr(s).len()) == jstr(s),
    ensures
        sparse_string(inp, i) == Option::Some((s, i + jstr(s).len())),
{
    assert(jstr(s) == seq!['"'] + (esc(s) + seq!['"'])) by {
        assert(seq!['"'] + (esc(s) + seq!['"']) =~= jstr(s));
    }
    lemma_subrange_split(inp, i, seq!['"'], esc(s) + seq!['"']);
    assert(inp.subrange(i, i + 1)[0] == inp[i]);
    assert(inp[i] == '"');
    lemma_subrange_split(inp, i + 1, esc(s), seq!['"']);
    assert(inp.subrange(i + 1 + esc(s).len(), i + 1 + esc(s).len() + 1)[0]
        == inp[i + 1 + esc(s).len()]);
    assert(inp[i + 1 + esc(s).len()] == '"');
    lemma_sparse_body_of_esc(inp, i + 1, s, Seq::empty());
    assert(Seq::empty() + s =~= s);
    assert(jstr(s).len() == esc(s).len() + 2);
}

/// Parsing a boolean at the start of a rendered boolean literal
/// yields that boolean.
proof fn lemma_sparse_bool_of_jbool(inp: Seq<char>, i: int, b: bool)
    requires
        0 <= i,
        i + jbool(b).len() <= inp.len(),
        inp.subrange(i, i + jbool(b).len()) == jbool(b),
    ensures
        sparse_bool(inp, i) == Option::Some((b, i + jbool(b).len())),
{
    reveal_strlit("true");
    reveal_strlit("false");
    if b {
        assert(at_lit(inp, i, "true"@));
        assert(jbool(b).len() == 4);
    } else {
        assert(at_lit(inp, i, "false"@));
        assert(jbool(b).len() == 5);
        if at_lit(inp, i, "true"@) {
            assert("true"@[0] == 't');
            assert("false"@[0] == 'f');
            assert(inp.subrange(i, i + 4)[0] == inp[i]);
            assert(inp.subrange(i, i + 5)[0] == inp[i]);
            assert(false);
        }
    }
}

/// A rendered member splits into its key string, the colon, and the
/// value's rendering.
proof fn lemma_member_parts(inp: Seq<char>, i: int, key: Seq<char>, value: Seq<char>)
    requires
        0 <= i,
        i + member_json(key, value).len() <= inp.len(),
        inp.subrange(i, i + member_json(key, value).len()) == member_json(key, value),
    ensures
        sparse_string(inp, i) == Option::Some((key, i + jstr(key).len())),
        inp[i + jstr(key).len()] == ':',
        inp.subrange(i + jstr(key).len() + 1, i + member_json(key, value).len()) == value,
{
    assert(member_json(key, value) == jstr(key) + (seq![':'] + value)) by {
        assert(jstr(key) + (seq![':'] + value) =~= member_json(key, value));
    }
    lemma_subrange_split(inp, i, jstr(key), seq![':'] + value);
    lemma_sparse_string_of_jstr(inp, i, key);
    let jc = i + jstr(key).len();
    lemma_subrange_split(inp, jc, seq![':'], value);
    assert(inp.subrange(jc, jc + 1)[0] == inp[jc]);
    assert(inp[jc] == ':');
}


/// Parsing a record object at the start of its rendered form yields
/// exactly the record's persisted fields.
#[verifier::rlimit(100)]
proof fn lemma_sparse_record_of_json(inp: Seq<char>, i: int, e: InstalledExtensionView)
    requires
        0 <= i,
        i + record_json(e).len() + 1 <= inp.len(),
        inp.subrange(i, i + record_json(e).len()) == record_json(e),
        !is_ws(inp[i + record_json(e).len()]),
    ensures
        sparse_record(inp, i) == Option::Some((e.persisted(), i + record_json(e).len())),
{
    reveal_strlit("name");
    reveal_strlit("version");
    reveal_strlit("definition-path");
    reveal_strlit("library-path");
    reveal_strlit("enabled");
    let m1 = member_json("name"@, jstr(e.name));
    let m2 = member_json("version"@, jstr(e.version));
    let m3 = member_json("definition-path"@, jstr(e.definition_path));
    let m4 = member_json("library-path"@, jstr(e.library_path));
    let m5 = member_json("enabled"@, jbool(e.enabled));
    let big = record_json(e);
    let t5 = m5 + seq!['}'];
    let t4 = m4 + (seq![','] + t5);
    let t3 = m3 + (seq![','] + t4);
    let t2 = m2 + (seq![','] + t3);
    let t1 = m1 + (seq![','] + t2);
    assert(big =~= seq!['{'] + t1);
    lemma_subrange_split(inp, i, seq!['{'], t1);
    assert(inp.subrange(i, i + 1)[0] == inp[i]);
    assert(inp[i] == '{');
    let o1 = i + 1;
    lemma_subrange_split(inp, o1, m1, seq![','] + t2);
    let s1 = o1 + m1.len();
    lemma_subrange_split(inp, s1, seq![','], t2);
    assert(inp.subrange(s1, s1 + 1)[0] == inp[s1]);
    assert(inp[s1] == ',');
    let o2 = s1 + 1;
    lemma_subrange_split(inp, o2, m2, seq![','] + t3);
    let s2 = o2 + m2.len();
    lemma_subrange_split(inp, s2, seq![','], t3);
    assert(inp.subrange(s2, s2 + 1)[0] == inp[s2]);
    assert(inp[s2] == ',');
    let o3 = s2 + 1;
    lemma_subrange_split(inp, o3, m3, seq![','] + t4);
    let s3 = o3 + m3.len();
    lemma_subrange_split(inp, s3, seq![','], t4);
    assert(inp.subrange(s3, s3 + 1)[0] == inp[s3]);
    assert(inp[s3] == ',');
    let o4 = s3 + 1;
    lemma_subrange_split(inp, o4, m4, seq![','] + t5);
    let s4 = o4 + m4.len();
    lemma_subrange_split(inp, s4, seq![','], t5);
    assert(inp.subrange(s4, s4 + 1)[0] == inp[s4]);
    assert(inp[s4] == ',');
    let o5 = s4 + 1;
    lemma_subrange_split(inp, o5, m5, seq!['}']);
    let s5 = o5 + m5.len();
    assert(inp.subrange(s5, s5 + 1)[0] == inp[s5]);
    assert(inp[s5] == '}');

    lemma_member_parts(inp, o1, "name"@, jstr(e.name));
    lemma_member_parts(inp, o2, "version"@, jstr(e.version));
    lemma_member_parts(inp, o3, "definition-path"@, jstr(e.definition_path));
    lemma_member_parts(inp, o4, "library-path"@, jstr(e.library_path));
    lemma_member_parts(inp, o5, "enabled"@, jbool(e.enabled));
    let v1 = o1 + jstr("name"@).len() + 1;
    let v2 = o2 + jstr("version"@).len() + 1;
    let v3 = o3 + jstr("definition-path"@).len() + 1;
    let v4 = o4 + jstr("library-path"@).len() + 1;
    let v5 = o5 + jstr("enabled"@).len() + 1;
    lemma_sparse_string_of_jstr(inp, v1, e.name);
    lemma_sparse_string_of_jstr(inp, v2, e.version);
    lemma_sparse_string_of_jstr(inp, v3, e.definition_path);
    lemma_sparse_string_of_jstr(inp, v4, e.library_path);
    lemma_sparse_bool_of_jbool(inp, v5, e.enabled);

    // the five keys are pairwise distinguishable where the dispatch asks
    assert("version"@ != "name"@);
    assert("definition-path"@ != "name"@ && "definition-path"@ != "version"@);
    assert("library-path"@ != "name"@ && "library-path"@ != "version"@
        && "library-path"@ != "definition-path"@);
    assert("enabled"@[0] == 'e' && "version"@[0] == 'v');
    assert("enabled"@ != "name"@ && "enabled"@ != "version"@
        && "enabled"@ != "definition-path"@ && "enabled"@ != "library-path"@);

    let acc0 = empty_partial();
    let acc1 = PartialRecord { name: Option::Some(e.name), ..acc0 };
    let acc2 = PartialRecord { version: Option::Some(e.version), ..acc1 };
    let acc3 = PartialRecord { definition_path: Option::Some(e.definition_path), ..acc2 };
    let acc4 = PartialRecord { library_path: Option::Some(e.library_path), ..acc3 };
    let acc5 = PartialRecord { enabled: Option::Some(e.enabled), ..acc4 };

    // member `name`
    assert(m1[0] == '"');
    assert(inp.subrange(o1, o1 + m1.len())[0] == inp[o1]);
    lemma_skip_at_nonws(inp, o1);
    lemma_skip_at_nonws(inp, o1 + jstr("name"@).len());
    assert(jstr(e.name)[0] == '"');
    assert(inp.subrange(v1, o1 + m1.len())[0] == inp[v1]);
    lemma_skip_at_nonws(inp, v1);
    assert(member_value(inp, v1, "name"@, acc0) == Option::Some((acc1, s1)));
    lemma_skip_at_nonws(inp, s1);
    assert(sparse_members(inp, o1, acc0) == sparse_members(inp, o2, acc1));

    // member `version`
    assert(m2[0] == '"');
    assert(inp.subrange(o2, o2 + m2.len())[0] == inp[o2]);
    lemma_skip_at_nonws(inp, o2);
    lemma_skip_at_nonws(inp, o2 + jstr("version"@).len());
    assert(jstr(e.version)[0] == '"');
    assert(inp.subrange(v2, o2 + m2.len())[0] == inp[v2]);
    lemma_skip_at_nonws(inp, v2);
    assert(member_value(inp, v2, "version"@, acc1) == Option::Some((acc2, s2)));
    lemma_skip_at_nonws(inp, s2);
    assert(sparse_members(inp, o2, acc1) == sparse_members(inp, o3, acc2));

    // member `definition-path`
    assert(m3[0] == '"');
    assert(inp.subrange(o3, o3 + m3.len())[0] == inp[o3]);
    lemma_skip_at_nonws(inp, o3);
    lemma_skip_at_nonws(inp, o3 + jstr("definition-path"@).len());
    assert(jstr(e.definition_path)[0] == '"');
    assert(inp.subrange(v3, o3 + m3.len())[0] == inp[v3]);
    lemma_skip_at_nonws(inp, v3);
    assert(member_value(inp, v3, "definition-path"@, acc2) == Option::Some((acc3, s3)));
    lemma_skip_at_nonws(inp, s3);
    assert(sparse_members(inp, o3, acc2) == sparse_members(inp, o4, acc3));

    // member `library-path`
    assert(m4[0] == '"');
    assert(inp.subrange(o4, o4 + m4.len())[0] == inp[o4]);
    lemma_skip_at_nonws(inp, o4);
    lemma_skip_at_nonws(inp, o4 + jstr("library-path"@).len());
    assert(jstr(e.library_path)[0] == '"');
    assert(inp.subrange(v4, o4 + m4.len())[0] == inp[v4]);
    lemma_skip_at_nonws(inp, v4);
    assert(member_value(inp, v4, "library-path"@, acc3) == Option::Some((acc4, s4)));
    lemma_skip_at_nonws(inp, s4);
    assert(sparse_members(inp, o4, acc3) == sparse_members(inp, o5, acc4));

    // member `enabled`, closed by the brace
    assert(m5[0] == '"');
    assert(inp.subrange(o5, o5 + m5.len())[0] == inp[o5]);
    lemma_skip_at_nonws(inp, o5);
    lemma_skip_at_nonws(inp, o5 + jstr("enabled"@).len());
    assert(jbool(e.enabled)[0] == 't' || jbool(e.enabled)[0] == 'f') by {
        reveal_strlit("true");
        reveal_strlit("false");
    }
    assert(inp.subrange(v5, o5 + m5.len())[0] == inp[v5]);
    lemma_skip_at_nonws(inp, v5);
    assert(member_value(inp, v5, "enabled"@, acc4) == Option::Some((acc5, s5)));
    lemma_skip_at_nonws(inp, s5);
    assert(sparse_members(inp, o5, acc4) == Option::Some((acc5, s5 + 1)));

    assert(finish_record(acc5) == Option::Some(e.persisted())) by {
        assert(finish_record(acc5) matches Option::Some(p) && p =~= e.persisted());
    }
    assert(s5 + 1 == i + big.len());
}


/// Parsing a record list over exactly its rendered form, with a
/// closing bracket right behind it, yields the records' persisted
/// fields in order, appended onto the accumulator.
proof fn lemma_sparse_records_of_json(inp: Seq<char>, i: int, exts: Seq<InstalledExtensionView>, acc: Seq<InstalledExtensionView>)
    requires
        exts.len() > 0,
        0 <= i,
        i + records_json(exts).len() + 1 <= inp.len(),
        inp.subrange(i, i + records_json(exts).len()) == records_json(exts),
        inp[i + records_json(exts).len()] == ']',
    ensures
        sparse_records(inp, i, acc) == Option::Some((
            acc + exts.map_values(|e: InstalledExtensionView| e.persisted()),
            i + records_json(exts).len(),
        )),
    decreases exts.len(),
{
    let e0 = exts[0];
    if exts.len() == 1 {
        assert(records_json(exts) == record_json(e0));
        lemma_sparse_record_of_json(inp, i, e0);
        let j = i + record_json(e0).len();
        assert(inp[j] == ']');
        lemma_skip_at_nonws(inp, j);
        assert(acc.push(e0.persisted())
            =~= acc + exts.map_values(|e: InstalledExtensionView| e.persisted()));
    } else {
        let rest = exts.skip(1);
        let tail = ","@ + records_json(rest);
        assert(records_json(exts) == record_json(e0) + ","@ + records_json(rest));
        assert(records_json(exts) =~= record_json(e0) + tail);
        lemma_subrange_split(inp, i, record_json(e0), tail);
        let j = i + record_json(e0).len();
        lemma_subrange_split(inp, j, ","@, records_json(rest));
        reveal_strlit(",");
        assert(inp.subrange(j, j + 1)[0] == inp[j]);
        assert(inp[j] == ',');
        lemma_sparse_record_of_json(inp, i, e0);
        lemma_skip_at_nonws(inp, j);
        assert(records_json(rest)[0] == '{') by {
            assert(record_json(rest[0])[0] == '{');
        }
        assert(inp.subrange(j + 1, j + 1 + records_json(rest).len())[0] == inp[j + 1]);
        assert(inp[j + 1] == '{');
        lemma_skip_at_nonws(inp, j + 1);
        lemma_sparse_records_of_json(inp, j + 1, rest, acc.push(e0.persisted()));
        assert(acc.push(e0.persisted()) + rest.map_values(|e: InstalledExtensionView| e.persisted())
            =~= acc + exts.map_values(|e: InstalledExtensionView| e.persisted()));
        assert(record_json(e0).len() >= 1);
        assert(sparse_records(inp, i, acc) == sparse_records(inp, j + 1, acc.push(e0.persisted())));
    }
}

/// Law: parsing a rendered registry yields exactly the records that
/// were rendered, with runtime-only state reset.  Persisting the
/// registry and reading it back loses nothing and invents nothing.
pub proof fn lemma_registry_round_trip(exts: Seq<InstalledExtensionView>)
    ensures
        sparse_registry(registry_json(exts))
            == Option::Some(exts.map_values(|e: InstalledExtensionView| e.persisted())),
{
    reveal_strlit("extensions");
    let inp = registry_json(exts);
    let value = seq!['['] + records_json(exts) + seq![']'];
    let m = member_json("extensions"@, value);
    assert(inp =~= seq!['{'] + (m + seq!['}']));
    assert(inp.subrange(0, inp.len() as int) =~= inp);
    lemma_subrange_split(inp, 0, seq!['{'], m + seq!['}']);
    assert(inp.subrange(0, 1)[0] == inp[0]);
    assert(inp[0] == '{');
    lemma_skip_at_nonws(inp, 0);
    lemma_subrange_split(inp, 1, m, seq!['}']);
    let sm: int = 1 + m.len() as int;
    assert(inp.subrange(sm, sm + 1)[0] == inp[sm]);
    assert(inp[sm] == '}');
    lemma_member_parts(inp, 1, "extensions"@, value);
    assert(m[0] == '"');
    assert(inp.subrange(1, sm)[0] == inp[1]);
    lemma_skip_at_nonws(inp, 1);
    let k1: int = 1 + jstr("extensions"@).len() as int;
    lemma_skip_at_nonws(inp, k1);
    let vstart = k1 + 1;
    assert(inp.subrange(vstart, sm) == value);
    assert(inp.subrange(vstart, vstart + 1 + records_json(exts).len() as int + 1) == value);
    assert(value =~= seq!['['] + (records_json(exts) + seq![']']));
    assert(inp.subrange(vstart, vstart + 1 + (records_json(exts).len() as int + 1))
        == seq!['['] + (records_json(exts) + seq![']']));
    lemma_subrange_split(inp, vstart, seq!['['], records_json(exts) + seq![']']);
    assert(inp.subrange(vstart, vstart + 1)[0] == inp[vstart]);
    assert(inp[vstart] == '[');
    lemma_skip_at_nonws(inp, vstart);
    let rstart = vstart + 1;
    lemma_subrange_split(inp, rstart, records_json(exts), seq![']']);
    let rend: int = rstart + records_json(exts).len() as int;
    assert(inp.subrange(rend, rend + 1)[0] == inp[rend]);
    assert(inp[rend] == ']');
    lemma_skip_at_nonws(inp, rend);
    assert(rend + 1 == sm);
    lemma_skip_at_nonws(inp, sm);
    assert(skip_ws(inp, sm + 1) == inp.len());
    if exts.len() == 0 {
        assert(records_json(exts).len() == 0);
        assert(rstart == rend);
        lemma_skip_at_nonws(inp, rstart);
        assert(exts.map_values(|e: InstalledExtensionView| e.persisted())
            =~= Seq::<InstalledExtensionView>::empty());
        assert(sparse_registry_end(inp, rend + 1, Seq::<InstalledExtensionView>::empty())
            == Option::Some(Seq::<InstalledExtensionView>::empty()));
    } else {
        assert(records_json(exts)[0] == '{') by {
            assert(record_json(exts[0])[0] == '{');
        }
        assert(inp.subrange(rstart, rend)[0] == inp[rstart]);
        assert(inp[rstart] == '{');
        lemma_skip_at_nonws(inp, rstart);
        lemma_sparse_records_of_json(inp, rstart, exts, Seq::empty());
        assert(Seq::empty() + exts.map_values(|e: InstalledExtensionView| e.persisted())
            =~= exts.map_values(|e: InstalledExtensionView| e.persisted()));
        assert(sparse_registry_end(inp, rend + 1, exts.map_values(|e: InstalledExtensionView| e.persisted()))
            == Option::Some(exts.map_values(|e: InstalledExtensionView| e.persisted())));
    }
}

} // verus!
