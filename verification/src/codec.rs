//! The manifest's text form: a table of tables, one block per package,
//! each block a header line naming the package and one quoted line per
//! field.  Serialisation and loading are exact inverses on well-formed
//! manifests, and loading rejects malformed documents with the reason.

use vstd::prelude::*;
use crate::build_meta::{
    Package, PackageList, PackageView, entry_valid, name_char, names_unique, pairs_view,
    valid_name, valid_value, value_char,
};
use crate::strutil::{has_prefix, str_eq};

verus! {

/// Why a manifest document was rejected.
#[derive(Clone, Copy, Debug, PartialEq, Eq, Structural)]
pub enum ManifestError {
    /// The document cannot be parsed, or an entry holds an inadmissible
    /// character.
    Syntax,
    /// An entry ends before all of its required fields appeared.
    MissingField,
    /// Two entries carry the same package name.
    DuplicateName,
}

/// The key prefix of a version line.
pub open spec fn version_prefix() -> Seq<char> {
    "version = \""@
}

/// The key prefix of a download line.
pub open spec fn download_prefix() -> Seq<char> {
    "download = \""@
}

/// The key prefix of a checksum line.
pub open spec fn md5_prefix() -> Seq<char> {
    "md5 = \""@
}

/// The header line of one block: the package name in a table heading.
pub open spec fn spec_header_line(name: Seq<char>) -> Seq<char> {
    "[package."@ + name + seq![']']
}

/// One field line: its key prefix, the value, and the closing quote.
pub open spec fn spec_field_line(prefix: Seq<char>, value: Seq<char>) -> Seq<char> {
    prefix + value + seq!['"']
}

/// The text block of one catalog entry: header line, then the three
/// field lines, each newline-terminated.
pub open spec fn spec_block(name: Seq<char>, p: PackageView) -> Seq<char> {
    spec_header_line(name) + seq!['\n']
        + spec_field_line(version_prefix(), p.version) + seq!['\n']
        + spec_field_line(download_prefix(), p.download) + seq!['\n']
        + spec_field_line(md5_prefix(), p.md5) + seq!['\n']
}

/// The text form of a whole manifest: the blocks of its entries in
/// order.
pub open spec fn spec_serialize(m: Seq<(Seq<char>, PackageView)>) -> Seq<char>
    decreases m.len(),
{
    if m.len() == 0 {
        Seq::<char>::empty()
    } else {
        spec_block(m[0].0, m[0].1) + spec_serialize(m.drop_first())
    }
}

/// Serialising one more entry appends its block.
pub proof fn lemma_serialize_snoc(m: Seq<(Seq<char>, PackageView)>, e: (Seq<char>, PackageView))
    ensures
        spec_serialize(m.push(e)) == spec_serialize(m) + spec_block(e.0, e.1),
    decreases m.len(),
{
    if m.len() == 0 {
        assert(m.push(e)[0] == e);
        assert(m.push(e).drop_first() =~= m);
        assert(spec_serialize(m) == Seq::<char>::empty());
        assert(spec_serialize(m.push(e)) == spec_block(e.0, e.1) + spec_serialize(m));
        assert(spec_block(e.0, e.1) + Seq::<char>::empty()
            =~= Seq::<char>::empty() + spec_block(e.0, e.1));
    } else {
        assert(m.push(e)[0] == m[0]);
        assert(m.push(e).drop_first() =~= m.drop_first().push(e));
        lemma_serialize_snoc(m.drop_first(), e);
        assert(spec_serialize(m.push(e))
            == spec_block(m[0].0, m[0].1)
                + (spec_serialize(m.drop_first()) + spec_block(e.0, e.1)));
        assert(spec_block(m[0].0, m[0].1)
                + (spec_serialize(m.drop_first()) + spec_block(e.0, e.1))
            =~= (spec_block(m[0].0, m[0].1) + spec_serialize(m.drop_first()))
                + spec_block(e.0, e.1));
        assert(spec_serialize(m.push(e)) =~= spec_serialize(m) + spec_block(e.0, e.1));
    }
}

/// The position of the first line break, or the whole length when there
/// is none.
pub open spec fn line_end(s: Seq<char>) -> int
    decreases s.len(),
{
    if s.len() == 0 {
        0
    } else if s[0] == '\n' {
        0
    } else {
        1 + line_end(s.drop_first())
    }
}

/// `line_end` points at the first line break when the string has one.
pub proof fn lemma_line_end(s: Seq<char>)
    ensures
        0 <= line_end(s) <= s.len(),
        line_end(s) < s.len() ==> s[line_end(s)] == '\n',
        forall|j: int| 0 <= j < line_end(s) ==> s[j] != '\n',
    decreases s.len(),
{
    if s.len() == 0 {
    } else if s[0] == '\n' {
    } else {
        lemma_line_end(s.drop_first());
        assert forall|j: int| 0 <= j < line_end(s) implies s[j] != '\n' by {
            if j > 0 {
                assert(s.drop_first()[j - 1] == s[j]);
            }
        }
    }
}

/// No line break anywhere in the string.
pub open spec fn no_nl(s: Seq<char>) -> bool {
    forall|i: int| 0 <= i < s.len() ==> #[trigger] s[i] != '\n'
}

/// The first line of `a + '\n' + b` is exactly `a` when `a` holds no
/// line break.
pub proof fn lemma_line_end_concat(a: Seq<char>, b: Seq<char>)
    requires
        no_nl(a),
    ensures
        line_end(a + seq!['\n'] + b) == a.len(),
    decreases a.len(),
{
    let s = a + seq!['\n'] + b;
    if a.len() == 0 {
        assert(s[0] == '\n');
    } else {
        assert(s[0] == a[0]);
        assert(s.drop_first() =~= a.drop_first() + seq!['\n'] + b);
        assert(no_nl(a.drop_first())) by {
            assert(forall|i: int| 0 <= i < a.drop_first().len()
                ==> #[trigger] a.drop_first()[i] == a[i + 1]);
        }
        lemma_line_end_concat(a.drop_first(), b);
    }
}

/// What a header line parses to: the package name, when the line has
/// the heading shape.
pub open spec fn spec_parse_header(line: Seq<char>) -> Option<Seq<char>> {
    if line.len() > "[package."@.len()
        && line.subrange(0, "[package."@.len() as int) == "[package."@
        && line.last() == ']' {
        Some(line.subrange("[package."@.len() as int, line.len() - 1))
    } else {
        None
    }
}

/// What a field line parses to: the value between the key prefix and
/// the closing quote, when the line has that shape.
pub open spec fn spec_parse_field(line: Seq<char>, prefix: Seq<char>) -> Option<Seq<char>> {
    if line.len() > prefix.len()
        && line.subrange(0, prefix.len() as int) == prefix
        && line.last() == '"' {
        Some(line.subrange(prefix.len() as int, line.len() - 1))
    } else {
        None
    }
}

/// Takes one field line off the front of the document: the value and
/// the remainder.  A document that ends here lacks a required field, as
/// does one whose next line opens the next block instead.
pub open spec fn spec_take_field(s: Seq<char>, prefix: Seq<char>)
    -> Result<(Seq<char>, Seq<char>), ManifestError> {
    if s.len() == 0 {
        Err(ManifestError::MissingField)
    } else {
        let le = line_end(s);
        if le == s.len() {
            Err(ManifestError::Syntax)
        } else {
            let line = s.subrange(0, le);
            let rest = s.subrange(le + 1, s.len() as int);
            if line.len() > 0 && line[0] == '[' {
                Err(ManifestError::MissingField)
            } else {
                match spec_parse_field(line, prefix) {
                    None => Err(ManifestError::Syntax),
                    Some(v) => Ok((v, rest)),
                }
            }
        }
    }
}

/// Parses the document into its entries, in order, without judging
/// names, values or uniqueness.
pub open spec fn spec_parse_entries(s: Seq<char>)
    -> Result<Seq<(Seq<char>, PackageView)>, ManifestError>
    decreases s.len(),
{
    if s.len() == 0 {
        Ok(Seq::<(Seq<char>, PackageView)>::empty())
    } else {
        let le = line_end(s);
        if le == s.len() {
            Err(ManifestError::Syntax)
        } else {
            let header = s.subrange(0, le);
            let rest0 = s.subrange(le + 1, s.len() as int);
            match spec_parse_header(header) {
                None => Err(ManifestError::Syntax),
                Some(name) => match spec_take_field(rest0, version_prefix()) {
                    Err(e) => Err(e),
                    Ok(v_rest) => match spec_take_field(v_rest.1, download_prefix()) {
                        Err(e) => Err(e),
                        Ok(d_rest) => match spec_take_field(d_rest.1, md5_prefix()) {
                            Err(e) => Err(e),
                            Ok(m_rest) => if m_rest.1.len() < s.len() {
                                match spec_parse_entries(m_rest.1) {
                                    Err(e) => Err(e),
                                    Ok(tail) => Ok(
                                        seq![
                                            (name, PackageView {
                                                version: v_rest.0,
                                                download: d_rest.0,
                                                md5: m_rest.0,
                                            }),
                                        ] + tail,
                                    ),
                                }
                            } else {
                                Err(ManifestError::Syntax)
                            },
                        },
                    },
                },
            }
        }
    }
}

/// What loading a document yields: its entries when the document
/// parses, every entry is valid and no name repeats; otherwise the
/// first reason to reject it.
pub open spec fn spec_load(s: Seq<char>) -> Result<Seq<(Seq<char>, PackageView)>, ManifestError> {
    match spec_parse_entries(s) {
        Err(e) => Err(e),
        Ok(es) => if !(forall|i: int| 0 <= i < es.len()
                ==> entry_valid(#[trigger] es[i].0, es[i].1)) {
            Err(ManifestError::Syntax)
        } else if !names_unique(es) {
            Err(ManifestError::DuplicateName)
        } else {
            Ok(es)
        },
    }
}

/// The fixed pieces of the text form hold no line break, and each field
/// key prefix opens with its own letter.
proof fn lemma_literals()
    ensures
        no_nl("[package."@),
        no_nl(version_prefix()),
        no_nl(download_prefix()),
        no_nl(md5_prefix()),
        "[package."@.len() == 9,
        version_prefix().len() == 11,
        download_prefix().len() == 12,
        md5_prefix().len() == 7,
        version_prefix()[0] == 'v',
        download_prefix()[0] == 'd',
        md5_prefix()[0] == 'm',
        "[package."@[0] == '[',
{
    reveal_strlit("[package.");
    reveal_strlit("version = \"");
    reveal_strlit("download = \"");
    reveal_strlit("md5 = \"");
    assert forall|i: int| 0 <= i < "[package."@.len()
        implies #[trigger] "[package."@[i] != '\n' by {
        assert("[package."@.len() == 9);
    }
    assert forall|i: int| 0 <= i < version_prefix().len()
        implies #[trigger] version_prefix()[i] != '\n' by {
        assert(version_prefix().len() == 11);
    }
    assert forall|i: int| 0 <= i < download_prefix().len()
        implies #[trigger] download_prefix()[i] != '\n' by {
        assert(download_prefix().len() == 12);
    }
    assert forall|i: int| 0 <= i < md5_prefix().len()
        implies #[trigger] md5_prefix()[i] != '\n' by {
        assert(md5_prefix().len() == 7);
    }
}

/// A valid name or value holds no line break.
proof fn lemma_valid_no_nl(s: Seq<char>)
    ensures
        valid_name(s) ==> no_nl(s),
        valid_value(s) ==> no_nl(s),
{
}

/// A header line built from a valid name parses back to that name, and
/// holds no line break.
proof fn lemma_header_round(name: Seq<char>)
    requires
        valid_name(name),
    ensures
        spec_parse_header(spec_header_line(name)) == Some(name),
        no_nl(spec_header_line(name)),
        spec_header_line(name)[0] == '[',
        spec_header_line(name).len() > 0,
{
    lemma_literals();
    lemma_valid_no_nl(name);
    let line = spec_header_line(name);
    let pl = "[package."@.len() as int;
    assert(line.len() == pl + name.len() + 1);
    assert(line.subrange(0, pl) =~= "[package."@);
    assert(line.last() == ']');
    assert(line.subrange(pl, line.len() - 1) =~= name);
    assert forall|i: int| 0 <= i < line.len() implies #[trigger] line[i] != '\n' by {
        if i < pl {
            assert(line[i] == "[package."@[i]);
        } else if i < pl + name.len() {
            assert(line[i] == name[i - pl]);
        } else {
            assert(line[i] == ']');
        }
    }
}

/// A field line built from a prefix and a valid value parses back to
/// that value, holds no line break, and opens with the prefix's first
/// character.
proof fn lemma_field_round(prefix: Seq<char>, value: Seq<char>)
    requires
        no_nl(prefix),
        prefix.len() > 0,
        valid_value(value),
    ensures
        spec_parse_field(spec_field_line(prefix, value), prefix) == Some(value),
        no_nl(spec_field_line(prefix, value)),
        spec_field_line(prefix, value)[0] == prefix[0],
        spec_field_line(prefix, value).len() > prefix.len(),
{
    lemma_valid_no_nl(value);
    let line = spec_field_line(prefix, value);
    let pl = prefix.len() as int;
    assert(line.len() == pl + value.len() + 1);
    assert(line.subrange(0, pl) =~= prefix);
    assert(line.last() == '"');
    assert(line.subrange(pl, line.len() - 1) =~= value);
    assert forall|i: int| 0 <= i < line.len() implies #[trigger] line[i] != '\n' by {
        if i < pl {
            assert(line[i] == prefix[i]);
        } else if i < pl + value.len() {
            assert(line[i] == value[i - pl]);
        } else {
            assert(line[i] == '"');
        }
    }
}

/// Taking the first line off `content + '\n' + rest` yields exactly
/// `content` and `rest` when `content` holds no line break.
proof fn lemma_take_line(content: Seq<char>, rest: Seq<char>)
    requires
        no_nl(content),
    ensures
        line_end(content + seq!['\n'] + rest) == content.len(),
        (content + seq!['\n'] + rest).subrange(0, content.len() as int) == content,
        (content + seq!['\n'] + rest).subrange(
            content.len() as int + 1,
            (content + seq!['\n'] + rest).len() as int,
        ) == rest,
        (content + seq!['\n'] + rest).len() == content.len() + 1 + rest.len(),
{
    let s = content + seq!['\n'] + rest;
    lemma_line_end_concat(content, rest);
    assert(s.subrange(0, content.len() as int) =~= content);
    assert(s.subrange(content.len() as int + 1, s.len() as int) =~= rest);
}

/// Taking one field off a document that opens with a field line built
/// from that prefix yields the field's value and the rest.
proof fn lemma_take_field_round(prefix: Seq<char>, value: Seq<char>, rest: Seq<char>)
    requires
        no_nl(prefix),
        prefix.len() > 0,
        prefix[0] != '[',
        valid_value(value),
    ensures
        spec_take_field(spec_field_line(prefix, value) + seq!['\n'] + rest, prefix)
            == Ok::<(Seq<char>, Seq<char>), ManifestError>((value, rest)),
{
    lemma_field_round(prefix, value);
    let line = spec_field_line(prefix, value);
    lemma_take_line(line, rest);
    let s = line + seq!['\n'] + rest;
    assert(s.len() > 0);
    assert(line_end(s) == line.len());
    assert(line_end(s) < s.len());
    assert(s.subrange(0, line_end(s)) == line);
    assert(s.subrange(line_end(s) + 1, s.len() as int) == rest);
    assert(line[0] == prefix[0]);
    assert(line[0] != '[');
}

/// Serialising a well-formed sequence of entries and parsing the text
/// back yields the same entries.
pub proof fn lemma_parse_serialize(m: Seq<(Seq<char>, PackageView)>)
    requires
        forall|i: int| 0 <= i < m.len() ==> entry_valid(#[trigger] m[i].0, m[i].1),
    ensures
        spec_parse_entries(spec_serialize(m))
            == Ok::<Seq<(Seq<char>, PackageView)>, ManifestError>(m),
    decreases m.len(),
{
    lemma_literals();
    if m.len() == 0 {
        assert(spec_serialize(m) == Seq::<char>::empty());
        assert(spec_parse_entries(spec_serialize(m))
            == Ok::<Seq<(Seq<char>, PackageView)>, ManifestError>(
                Seq::<(Seq<char>, PackageView)>::empty(),
            ));
        assert(m =~= Seq::<(Seq<char>, PackageView)>::empty());
    } else {
        let name = m[0].0;
        let p = m[0].1;
        assert(entry_valid(name, p));
        let hl = spec_header_line(name);
        let vl = spec_field_line(version_prefix(), p.version);
        let dl = spec_field_line(download_prefix(), p.download);
        let ml = spec_field_line(md5_prefix(), p.md5);
        let tail_text = spec_serialize(m.drop_first());
        let s = spec_serialize(m);
        let r2 = ml + seq!['\n'] + tail_text;
        let r1 = dl + seq!['\n'] + r2;
        let r0 = vl + seq!['\n'] + r1;
        assert(s =~= hl + seq!['\n'] + r0);

        lemma_header_round(name);
        lemma_take_line(hl, r0);
        assert(line_end(s) == hl.len() < s.len());
        assert(s.subrange(0, line_end(s)) == hl);
        assert(s.subrange(line_end(s) + 1, s.len() as int) == r0);
        assert(spec_parse_header(hl) == Some(name));

        lemma_take_field_round(version_prefix(), p.version, r1);
        lemma_take_field_round(download_prefix(), p.download, r2);
        lemma_take_field_round(md5_prefix(), p.md5, tail_text);
        assert(spec_take_field(r0, version_prefix())
            == Ok::<(Seq<char>, Seq<char>), ManifestError>((p.version, r1)));
        assert(spec_take_field(r1, download_prefix())
            == Ok::<(Seq<char>, Seq<char>), ManifestError>((p.download, r2)));
        assert(spec_take_field(r2, md5_prefix())
            == Ok::<(Seq<char>, Seq<char>), ManifestError>((p.md5, tail_text)));

        assert(forall|i: int| 0 <= i < m.drop_first().len()
            ==> entry_valid(#[trigger] m.drop_first()[i].0, m.drop_first()[i].1)) by {
            assert(forall|i: int| 0 <= i < m.drop_first().len()
                ==> m.drop_first()[i] == m[i + 1]);
        }
        lemma_parse_serialize(m.drop_first());

        assert(tail_text.len() < s.len());
        assert(spec_parse_entries(s)
            == Ok::<Seq<(Seq<char>, PackageView)>, ManifestError>(
                seq![(name, PackageView { version: p.version, download: p.download, md5: p.md5 })]
                    + m.drop_first(),
            ));
        assert(PackageView { version: p.version, download: p.download, md5: p.md5 } =~= p);
        assert(seq![(name, p)] + m.drop_first() =~= m);
    }
}

/// The round-trip law: loading the serialised text of any well-formed
/// manifest yields that manifest back, with no rejection.
pub proof fn lemma_load_round_trip(m: Seq<(Seq<char>, PackageView)>)
    requires
        crate::build_meta::manifest_wf(m),
    ensures
        spec_load(spec_serialize(m)) == Ok::<Seq<(Seq<char>, PackageView)>, ManifestError>(m),
{
    lemma_parse_serialize(m);
}

/// Whatever loading accepts is well-formed: valid entries under unique
/// names.  Together with the round-trip law, serialising a loaded
/// manifest and loading it again always succeeds.
pub proof fn lemma_load_is_wf(s: Seq<char>)
    ensures
        spec_load(s) is Ok ==> crate::build_meta::manifest_wf(spec_load(s)->Ok_0),
{
}

/// The position of the first line break of a string, found by scanning.
fn find_line_end(s: &str) -> (r: usize)
    ensures
        r as int == line_end(s@),
{
    let n: usize = s.unicode_len();
    let mut i: usize = 0;
    while i < n
        invariant
            n == s@.len(),
            0 <= i <= n,
            forall|j: int| 0 <= j < i ==> s@[j] != '\n',
        decreases n - i,
    {
        if s.get_char(i) == '\n' {
            proof {
                lemma_line_end(s@);
                let le = line_end(s@);
                if le < i {
                    assert(s@[le] != '\n');
                }
                if le > i {
                    assert(s@[i as int] != '\n');
                }
                assert(le == i);
            }
            return i;
        }
        i = i + 1;
    }
    proof {
        lemma_line_end(s@);
        if line_end(s@) < n {
            assert(s@[line_end(s@)] != '\n');
        }
        assert(line_end(s@) == n);
    }
    n
}

/// Taking a field line off a document leaves a strictly shorter
/// document.
proof fn lemma_take_field_shrinks(s: Seq<char>, prefix: Seq<char>)
    ensures
        spec_take_field(s, prefix) is Ok ==> spec_take_field(s, prefix)->Ok_0.1.len() < s.len(),
{
    if s.len() != 0 {
        lemma_line_end(s);
    }
}

/// Takes one field line off the front of the document.
fn take_field<'a>(s: &'a str, prefix: &str) -> (r: Result<(String, &'a str), ManifestError>)
    ensures
        (match spec_take_field(s@, prefix@) {
            Ok(vr) => r is Ok && r->Ok_0.0@ == vr.0 && r->Ok_0.1@ == vr.1,
            Err(e) => r is Err && r->Err_0 == e,
        }),
{
    let n: usize = s.unicode_len();
    if n == 0 {
        return Err(ManifestError::MissingField);
    }
    let le = find_line_end(s);
    proof {
        lemma_line_end(s@);
    }
    if le == n {
        return Err(ManifestError::Syntax);
    }
    let line = s.substring_char(0, le);
    let rest = s.substring_char(le + 1, n);
    let ln: usize = line.unicode_len();
    if ln > 0 && line.get_char(0) == '[' {
        return Err(ManifestError::MissingField);
    }
    let pl: usize = prefix.unicode_len();
    if ln > pl && has_prefix(line, prefix) && line.get_char(ln - 1) == '"' {
        let v = line.substring_char(pl, ln - 1);
        proof {
            assert(line@.last() == '"');
        }
        Ok((String::from_str(v), rest))
    } else {
        Err(ManifestError::Syntax)
    }
}

/// Parses the document into its entries, in order, without judging
/// names, values or uniqueness.
fn parse_entries(s: &str) -> (r: Result<Vec<(String, Package)>, ManifestError>)
    ensures
        (match spec_parse_entries(s@) {
            Ok(es) => r is Ok && pairs_view(r->Ok_0@) == es,
            Err(e) => r is Err && r->Err_0 == e,
        }),
    decreases s@.len(),
{
    let n: usize = s.unicode_len();
    if n == 0 {
        let empty_entries: Vec<(String, Package)> = Vec::new();
        proof {
            assert(pairs_view(empty_entries@) =~= Seq::<(Seq<char>, PackageView)>::empty());
        }
        return Ok(empty_entries);
    }
    let le = find_line_end(s);
    proof {
        lemma_line_end(s@);
    }
    if le == n {
        return Err(ManifestError::Syntax);
    }
    let header = s.substring_char(0, le);
    let rest0 = s.substring_char(le + 1, n);
    proof {
        lemma_literals();
    }
    let hn: usize = header.unicode_len();
    if !(hn > 9 && has_prefix(header, "[package.") && header.get_char(hn - 1) == ']') {
        proof {
            assert(header@.len() > "[package."@.len()
                ==> header@.last() == header@[hn - 1]);
            assert(spec_parse_header(header@) is None);
        }
        return Err(ManifestError::Syntax);
    }
    let name = String::from_str(header.substring_char(9, hn - 1));
    proof {
        assert(header@.last() == ']');
        assert(spec_parse_header(header@) == Some(name@));
    }
    match take_field(rest0, "version = \"") {
        Err(e) => Err(e),
        Ok((version, rest1)) => match take_field(rest1, "download = \"") {
            Err(e) => Err(e),
            Ok((download, rest2)) => match take_field(rest2, "md5 = \"") {
                Err(e) => Err(e),
                Ok((md5, rest3)) => {
                    proof {
                        lemma_take_field_shrinks(rest0@, version_prefix());
                        lemma_take_field_shrinks(rest1@, download_prefix());
                        lemma_take_field_shrinks(rest2@, md5_prefix());
                        assert(rest3@.len() < s@.len());
                    }
                    match parse_entries(rest3) {
                        Err(e) => Err(e),
                        Ok(tail) => {
                            let ghost tail_view = pairs_view(tail@);
                            let mut out: Vec<(String, Package)> = Vec::new();
                            out.push((name, Package { version, download, md5 }));
                            let mut rest_entries = tail;
                            out.append(&mut rest_entries);
                            proof {
                                let es = spec_parse_entries(s@)->Ok_0;
                                assert forall|i: int| 0 <= i < pairs_view(out@).len()
                                    implies pairs_view(out@)[i] == es[i] by {
                                    if i > 0 {
                                        assert(pairs_view(out@)[i] == tail_view[i - 1]);
                                    }
                                }
                                assert(pairs_view(out@) =~= es);
                            }
                            Ok(out)
                        },
                    }
                },
            },
        },
    }
}

/// Whether a string is admissible as a package name.
fn is_valid_name(s: &str) -> (r: bool)
    ensures
        r == valid_name(s@),
{
    let n: usize = s.unicode_len();
    if n == 0 {
        return false;
    }
    let mut i: usize = 0;
    while i < n
        invariant
            n == s@.len(),
            0 <= i <= n,
            forall|j: int| 0 <= j < i ==> name_char(#[trigger] s@[j]),
        decreases n - i,
    {
        let c = s.get_char(i);
        let u = c as u32;
        if !((97 <= u && u <= 122) || (65 <= u && u <= 90) || (48 <= u && u <= 57)
            || c == '-' || c == '_') {
            return false;
        }
        i = i + 1;
    }
    true
}

/// Whether a string is admissible as a manifest value.
fn is_valid_value(s: &str) -> (r: bool)
    ensures
        r == valid_value(s@),
{
    let n: usize = s.unicode_len();
    let mut i: usize = 0;
    while i < n
        invariant
            n == s@.len(),
            0 <= i <= n,
            forall|j: int| 0 <= j < i ==> value_char(#[trigger] s@[j]),
        decreases n - i,
    {
        let c = s.get_char(i);
        if c == '"' || c == '\n' {
            return false;
        }
        i = i + 1;
    }
    true
}

/// Whether every parsed entry has a valid name and valid values.
fn entries_valid(entries: &Vec<(String, Package)>) -> (r: bool)
    ensures
        r == (forall|i: int| 0 <= i < pairs_view(entries@).len()
            ==> entry_valid(#[trigger] pairs_view(entries@)[i].0, pairs_view(entries@)[i].1)),
{
    let n = entries.len();
    let mut i: usize = 0;
    while i < n
        invariant
            n == entries@.len(),
            0 <= i <= n,
            forall|j: int| 0 <= j < i
                ==> entry_valid(#[trigger] pairs_view(entries@)[j].0, pairs_view(entries@)[j].1),
        decreases n - i,
    {
        let pair = &entries[i];
        if !(is_valid_name(pair.0.as_str()) && is_valid_value(pair.1.version.as_str())
            && is_valid_value(pair.1.download.as_str()) && is_valid_value(pair.1.md5.as_str())) {
            proof {
                assert(!entry_valid(pairs_view(entries@)[i as int].0,
                    pairs_view(entries@)[i as int].1));
            }
            return false;
        }
        i = i + 1;
    }
    true
}

/// Whether two parsed entries carry the same name.
fn has_duplicate_names(entries: &Vec<(String, Package)>) -> (r: bool)
    ensures
        r == !names_unique(pairs_view(entries@)),
{
    let n = entries.len();
    let mut b: usize = 1;
    while b < n
        invariant
            n == entries@.len(),
            1 <= b || n == 0,
            b <= n || (n == 0 && b == 1),
            forall|x: int, y: int| 0 <= x < y < b
                ==> #[trigger] pairs_view(entries@)[x].0 != #[trigger] pairs_view(entries@)[y].0,
        decreases n - b,
    {
        let mut a: usize = 0;
        while a < b
            invariant
                n == entries@.len(),
                0 <= a <= b < n,
                forall|k: int| 0 <= k < a
                    ==> #[trigger] pairs_view(entries@)[k].0 != pairs_view(entries@)[b as int].0,
            decreases b - a,
        {
            if str_eq(entries[a].0.as_str(), entries[b].0.as_str()) {
                proof {
                    assert(pairs_view(entries@)[a as int].0 == pairs_view(entries@)[b as int].0);
                }
                return true;
            }
            a = a + 1;
        }
        b = b + 1;
    }
    proof {
        assert(names_unique(pairs_view(entries@)));
    }
    false
}

/// One serialisation step: appending the four lines of entry `i` to the
/// text of the first `i` entries yields the text of the first `i + 1`.
proof fn lemma_serialize_step(
    m: Seq<(Seq<char>, PackageView)>,
    i: int,
    prev: Seq<char>,
    appended: Seq<char>,
)
    requires
        0 <= i < m.len(),
        prev == spec_serialize(m.take(i)),
        appended == prev + "[package."@ + m[i].0 + "]\n"@
            + "version = \""@ + m[i].1.version + "\"\n"@
            + "download = \""@ + m[i].1.download + "\"\n"@
            + "md5 = \""@ + m[i].1.md5 + "\"\n"@,
    ensures
        appended == spec_serialize(m.take(i + 1)),
{
    reveal_strlit("]\n");
    reveal_strlit("\"\n");
    assert("]\n"@ =~= seq![']'] + seq!['\n']);
    assert("\"\n"@ =~= seq!['"'] + seq!['\n']);
    assert(appended =~= prev + spec_block(m[i].0, m[i].1));
    assert(m.take(i + 1) =~= m.take(i).push(m[i]));
    lemma_serialize_snoc(m.take(i), m[i]);
}

impl PackageList {
    /// Renders the catalog in its text form: one block per entry, in
    /// order.
    pub fn serialize(&self) -> (r: String)
        ensures
            r@ == spec_serialize(self@),
    {
        let n = self.package.len();
        let mut out = String::new();
        let mut i: usize = 0;
        proof {
            assert(self@.take(0) =~= Seq::<(Seq<char>, PackageView)>::empty());
        }
        while i < n
            invariant
                n == self.package@.len(),
                0 <= i <= n,
                out@ == spec_serialize(self@.take(i as int)),
            decreases n - i,
        {
            let pair = &self.package[i];
            let ghost prev = out@;
            out.append("[package.");
            out.append(pair.0.as_str());
            out.append("]\n");
            out.append("version = \"");
            out.append(pair.1.version.as_str());
            out.append("\"\n");
            out.append("download = \"");
            out.append(pair.1.download.as_str());
            out.append("\"\n");
            out.append("md5 = \"");
            out.append(pair.1.md5.as_str());
            out.append("\"\n");
            proof {
                assert(self@[i as int] == (pair.0@, pair.1@));
                lemma_serialize_step(self@, i as int, prev, out@);
            }
            i = i + 1;
        }
        proof {
            assert(self@.take(n as int) =~= self@);
        }
        out
    }

    /// Whether this catalog is well-formed: every entry valid and every
    /// name unique.  Exactly the manifests whose text form loads back
    /// losslessly.
    pub fn is_well_formed(&self) -> (r: bool)
        ensures
            r == crate::build_meta::manifest_wf(self@),
    {
        entries_valid(&self.package) && !has_duplicate_names(&self.package)
    }

    /// Loads a manifest from its text form: the parsed catalog when the
    /// document is well-formed, else the first reason to reject it.
    pub fn load(text: &str) -> (r: Result<PackageList, ManifestError>)
        ensures
            (match spec_load(text@) {
                Ok(m) => r is Ok && r->Ok_0@ == m,
                Err(e) => r is Err && r->Err_0 == e,
            }),
    {
        match parse_entries(text) {
            Err(e) => Err(e),
            Ok(entries) => {
                if !entries_valid(&entries) {
                    Err(ManifestError::Syntax)
                } else if has_duplicate_names(&entries) {
                    Err(ManifestError::DuplicateName)
                } else {
                    Ok(PackageList { package: entries })
                }
            },
        }
    }
}

} // verus!
