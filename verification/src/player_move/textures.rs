//! The material table of `sound/materials.txt` and the texture type lookup
//! used by the player movement code to pick footstep sounds.
//!
//! Each line of the materials file is `<type> <name>`: an ASCII letter that
//! names the material, then a texture name of at most
//! `CBTEXTURENAMEMAX - 1` bytes without white space. Lines that do not have
//! this shape are skipped, and at most `CTEXTURESMAX` entries are kept. The
//! table is sorted by name ignoring ASCII case, and looked up by binary
//! search.

use vstd::prelude::*;
use crate::utils::ignore_case::{ci_eq, ci_lt, compare_ignore_case, lemma_ci_order, CaseOrder};

verus! {

broadcast use vstd::seq_lib::group_to_multiset_ensures;

/// Concrete (the default material).
pub const CHAR_TEX_CONCRETE: u8 = 0x43;
/// Metal.
pub const CHAR_TEX_METAL: u8 = 0x4d;
/// Dirt.
pub const CHAR_TEX_DIRT: u8 = 0x44;
/// Ventilation duct.
pub const CHAR_TEX_VENT: u8 = 0x56;
/// Metal grate.
pub const CHAR_TEX_GRATE: u8 = 0x47;
/// Floor tile.
pub const CHAR_TEX_TILE: u8 = 0x54;
/// Slosh (shallow liquid).
pub const CHAR_TEX_SLOSH: u8 = 0x53;
/// Wood.
pub const CHAR_TEX_WOOD: u8 = 0x57;
/// Computer.
pub const CHAR_TEX_COMPUTER: u8 = 0x50;
/// Glass.
pub const CHAR_TEX_GLASS: u8 = 0x59;
/// Flesh.
pub const CHAR_TEX_FLESH: u8 = 0x46;

/// Max number of textures loaded.
pub const CTEXTURESMAX: usize = 512;
/// Only the first `CBTEXTURENAMEMAX - 1` bytes of a name are kept.
pub const CBTEXTURENAMEMAX: usize = 13;

pub const NEWLINE: u8 = 0x0a;
pub const CARRIAGE_RETURN: u8 = 0x0d;
pub const SPACE: u8 = 0x20;
pub const MINUS: u8 = 0x2d;
pub const PLUS: u8 = 0x2b;
pub const OPEN_BRACE: u8 = 0x7b;
pub const BANG: u8 = 0x21;
pub const TILDE: u8 = 0x7e;

/// ASCII white space as `u8::is_ascii_whitespace` defines it: space, tab,
/// line feed, form feed and carriage return.
pub open spec fn is_ws(b: u8) -> bool {
    b == 0x20 || b == 0x09 || b == 0x0a || b == 0x0c || b == 0x0d
}

/// An ASCII letter.
pub open spec fn is_alpha(b: u8) -> bool {
    (0x41 <= b && b <= 0x5a) || (0x61 <= b && b <= 0x7a)
}

/// ASCII upper-case folding of one byte.
pub open spec fn upper(b: u8) -> u8 {
    if 0x61 <= b && b <= 0x7a {
        (b - 32) as u8
    } else {
        b
    }
}

/// `s` without its leading ASCII white space.
pub open spec fn trim_start(s: Seq<u8>) -> Seq<u8>
    decreases s.len(),
{
    if s.len() > 0 && is_ws(s[0]) {
        trim_start(s.drop_first())
    } else {
        s
    }
}

/// The name that `strip_texture_prefix` keeps of a traced texture name: a
/// leading `-x` or `+x` (random and animated texture markers) goes, then
/// one of `{`, `!`, `~` or a space, and the rest is cut to
/// `CBTEXTURENAMEMAX - 1` bytes.
pub open spec fn spec_strip_texture_prefix(n: Seq<u8>) -> Seq<u8> {
    let a = if n.len() >= 2 && (n[0] == MINUS || n[0] == PLUS) {
        n.subrange(2, n.len() as int)
    } else {
        n
    };
    let b = if a.len() >= 1 && (a[0] == OPEN_BRACE || a[0] == BANG || a[0] == TILDE || a[0]
        == SPACE) {
        a.subrange(1, a.len() as int)
    } else {
        a
    };
    if b.len() >= CBTEXTURENAMEMAX {
        b.subrange(0, CBTEXTURENAMEMAX - 1)
    } else {
        b
    }
}

/// Index of the first line feed of `s`, or `s.len()` when there is none.
pub open spec fn first_newline(s: Seq<u8>) -> int
    decreases s.len(),
{
    if s.len() == 0 {
        0
    } else if s[0] == NEWLINE {
        0
    } else {
        1 + first_newline(s.drop_first())
    }
}

/// The first line feed of `s` is where `first_newline` says, or there is
/// none and it gives the length.
pub proof fn lemma_first_newline_bounds(s: Seq<u8>)
    ensures
        0 <= first_newline(s) <= s.len(),
        first_newline(s) < s.len() ==> s[first_newline(s)] == NEWLINE,
        forall|i: int| 0 <= i < first_newline(s) ==> s[i] != NEWLINE,
    decreases s.len(),
{
    if s.len() > 0 && s[0] != NEWLINE {
        lemma_first_newline_bounds(s.drop_first());
        assert forall|i: int| 0 <= i < first_newline(s) implies s[i] != NEWLINE by {
            if i > 0 {
                assert(s[i] == s.drop_first()[i - 1]);
            }
        }
    }
}

proof fn lemma_first_newline_is(s: Seq<u8>, k: int)
    requires
        0 <= k <= s.len(),
        forall|i: int| 0 <= i < k ==> s[i] != NEWLINE,
        k < s.len() ==> s[k] == NEWLINE,
    ensures
        first_newline(s) == k,
    decreases s.len(),
{
    if s.len() > 0 && k > 0 {
        lemma_first_newline_is(s.drop_first(), k - 1);
    }
}

/// The lines of `s`, split at each line feed; the last line is what
/// follows the last line feed, empty when `s` ends with one.
pub open spec fn lines(s: Seq<u8>) -> Seq<Seq<u8>>
    decreases s.len(),
{
    let k = first_newline(s);
    proof {
        lemma_first_newline_bounds(s);
    }
    if k >= s.len() {
        seq![s]
    } else {
        seq![s.subrange(0, k)] + lines(s.subrange(k + 1, s.len() as int))
    }
}

/// A texture name that fits the table: not empty, shorter than
/// `CBTEXTURENAMEMAX`, without white space or NUL bytes.
pub open spec fn valid_name(name: Seq<u8>) -> bool {
    &&& 0 < name.len() < CBTEXTURENAMEMAX
    &&& forall|i: int| 0 <= i < name.len() ==> !is_ws(#[trigger] name[i]) && name[i] != 0
}

/// The entry that one line of the materials file gives, if any: the first
/// byte after leading white space must be a letter (the type, upper-cased),
/// and the name is the rest after white space with one trailing carriage
/// return removed.
pub open spec fn line_entry(line: Seq<u8>) -> Option<(u8, Seq<u8>)> {
    let t = trim_start(line);
    if t.len() == 0 || !is_alpha(t[0]) {
        None
    } else {
        let n0 = trim_start(t.drop_first());
        let name = if n0.len() > 0 && n0.last() == CARRIAGE_RETURN {
            n0.drop_last()
        } else {
            n0
        };
        if valid_name(name) {
            Some((upper(t[0]), name))
        } else {
            None
        }
    }
}

/// Adds the entries of `ls` to `acc` in order while fewer than
/// `CTEXTURESMAX` are held.
pub open spec fn collect(acc: Seq<(u8, Seq<u8>)>, ls: Seq<Seq<u8>>) -> Seq<(u8, Seq<u8>)>
    decreases ls.len(),
{
    if ls.len() == 0 {
        acc
    } else {
        let next = match line_entry(ls[0]) {
            Some(e) => if acc.len() < CTEXTURESMAX {
                acc.push(e)
            } else {
                acc
            },
            None => acc,
        };
        collect(next, ls.drop_first())
    }
}

/// The entries of a materials file in file order, before sorting.
pub open spec fn file_entries(file: Seq<u8>) -> Seq<(u8, Seq<u8>)> {
    collect(Seq::empty(), lines(file))
}

/// The names of a table are in non-decreasing order ignoring ASCII case.
pub open spec fn sorted_by_name(s: Seq<(u8, Seq<u8>)>) -> bool {
    forall|i: int, j: int| 0 <= i < j < s.len() ==> !ci_lt(#[trigger] s[j].1, #[trigger] s[i].1)
}

/// Every entry has an upper-case letter for type and a valid name.
pub open spec fn valid_entries(s: Seq<(u8, Seq<u8>)>) -> bool {
    forall|i: int|
        0 <= i < s.len() ==> is_alpha(#[trigger] s[i].0) && s[i].0 == upper(s[i].0)
            && valid_name(s[i].1)
}

/// `r` is what a lookup of `name` in table `s` may give: the type of an
/// entry whose name equals `name` ignoring ASCII case, or
/// `CHAR_TEX_CONCRETE` when no entry has that name.
pub open spec fn lookup_result(s: Seq<(u8, Seq<u8>)>, name: Seq<u8>, r: u8) -> bool {
    if exists|i: int| 0 <= i < s.len() && ci_eq(#[trigger] s[i].1, name) {
        exists|i: int| 0 <= i < s.len() && ci_eq(#[trigger] s[i].1, name) && r == s[i].0
    } else {
        r == CHAR_TEX_CONCRETE
    }
}

/// One entry of the table: a material type and a texture name.
pub struct TextureEntry {
    pub kind: u8,
    pub name: Vec<u8>,
}

/// The entries as plain values.
pub open spec fn entries_view(v: Seq<TextureEntry>) -> Seq<(u8, Seq<u8>)> {
    v.map_values(|e: TextureEntry| (e.kind, e.name@))
}

/// The material table, sorted by name ignoring ASCII case.
pub struct TextureTypes {
    entries: Vec<TextureEntry>,
}

impl View for TextureTypes {
    type V = Seq<(u8, Seq<u8>)>;

    closed spec fn view(&self) -> Seq<(u8, Seq<u8>)> {
        entries_view(self.entries@)
    }
}

impl TextureTypes {
    /// The table's invariant: sorted by name, at most `CTEXTURESMAX`
    /// entries, each one well formed.
    #[verifier::type_invariant]
    spec fn wf(&self) -> bool {
        &&& sorted_by_name(self@)
        &&& self@.len() <= CTEXTURESMAX
        &&& valid_entries(self@)
    }

    /// An empty table.
    pub fn empty() -> (r: TextureTypes)
        ensures
            r@ == Seq::<(u8, Seq<u8>)>::empty(),
    {
        let r = TextureTypes { entries: Vec::new() };
        assert(r@ =~= Seq::<(u8, Seq<u8>)>::empty());
        r
    }

    /// The number of entries.
    pub fn len(&self) -> (r: usize)
        ensures
            r == self@.len(),
    {
        self.entries.len()
    }

    /// The type and name of the entry at `i`.
    pub fn get(&self, i: usize) -> (r: (u8, &[u8]))
        requires
            i < self@.len(),
        ensures
            r.0 == self@[i as int].0,
            r.1@ == self@[i as int].1,
    {
        let e = &self.entries[i];
        (e.kind, e.name.as_slice())
    }
}

/// Skips the leading ASCII white space of `s`.
pub fn trim_ascii_start(s: &[u8]) -> (r: &[u8])
    ensures
        r@ == trim_start(s@),
{
    let mut i: usize = 0;
    assert(s@.subrange(0, s@.len() as int) =~= s@);
    while i < s.len() && is_ascii_whitespace(s[i])
        invariant
            i <= s@.len(),
            trim_start(s@) == trim_start(s@.subrange(i as int, s@.len() as int)),
        decreases s.len() - i,
    {
        assert(s@.subrange(i as int, s@.len() as int).drop_first() =~= s@.subrange(
            i + 1,
            s@.len() as int,
        ));
        i += 1;
    }
    &s[i..s.len()]
}

/// `u8::is_ascii_whitespace`.
pub fn is_ascii_whitespace(b: u8) -> (r: bool)
    ensures
        r == is_ws(b),
{
    b == 0x20 || b == 0x09 || b == 0x0a || b == 0x0c || b == 0x0d
}

/// `u8::is_ascii_alphabetic`.
pub fn is_ascii_alphabetic(b: u8) -> (r: bool)
    ensures
        r == is_alpha(b),
{
    (0x41 <= b && b <= 0x5a) || (0x61 <= b && b <= 0x7a)
}

/// `u8::to_ascii_uppercase`.
pub fn to_ascii_uppercase(b: u8) -> (r: u8)
    ensures
        r == upper(b),
{
    if 0x61 <= b && b <= 0x7a {
        b - 32
    } else {
        b
    }
}

/// Removes the prefixes that mark random, animated, transparent and other
/// special textures from a traced texture name, and cuts it to the length
/// that the table keeps.
pub fn strip_texture_prefix(name: &[u8]) -> (r: &[u8])
    ensures
        r@ == spec_strip_texture_prefix(name@),
{
    let mut name = name;
    if name.len() >= 2 && (name[0] == MINUS || name[0] == PLUS) {
        name = &name[2..name.len()];
    }
    if name.len() >= 1 && (name[0] == OPEN_BRACE || name[0] == BANG || name[0] == TILDE || name[0]
        == SPACE) {
        name = &name[1..name.len()];
    }
    if name.len() >= CBTEXTURENAMEMAX {
        name = &name[0..CBTEXTURENAMEMAX - 1];
    }
    name
}

/// Checks that a name holds no white space or NUL byte.
fn name_bytes_ok(name: &[u8]) -> (r: bool)
    ensures
        r == forall|i: int| 0 <= i < name@.len() ==> !is_ws(#[trigger] name@[i]) && name@[i] != 0,
{
    let mut i: usize = 0;
    while i < name.len()
        invariant
            i <= name@.len(),
            forall|j: int| 0 <= j < i ==> !is_ws(#[trigger] name@[j]) && name@[j] != 0,
        decreases name.len() - i,
    {
        if is_ascii_whitespace(name[i]) || name[i] == 0 {
            return false;
        }
        i += 1;
    }
    true
}

/// Reads the entry of one line of the materials file.
fn parse_line(line: &[u8]) -> (r: Option<TextureEntry>)
    ensures
        match r {
            Some(e) => line_entry(line@) == Some((e.kind, e.name@)),
            None => line_entry(line@) is None,
        },
{
    let t = trim_ascii_start(line);
    if t.len() == 0 || !is_ascii_alphabetic(t[0]) {
        return None;
    }
    let c = t[0];
    let tail = &t[1..t.len()];
    assert(tail@ =~= t@.drop_first());
    let n0 = trim_ascii_start(tail);
    let name = if n0.len() > 0 && n0[n0.len() - 1] == CARRIAGE_RETURN {
        assert(n0@.subrange(0, n0@.len() - 1) =~= n0@.drop_last());
        &n0[0..n0.len() - 1]
    } else {
        n0
    };
    if name.len() == 0 || name.len() >= CBTEXTURENAMEMAX || !name_bytes_ok(name) {
        return None;
    }
    Some(TextureEntry { kind: to_ascii_uppercase(c), name: vstd::slice::slice_to_vec(name) })
}

proof fn lemma_collect_full(acc: Seq<(u8, Seq<u8>)>, ls: Seq<Seq<u8>>)
    requires
        acc.len() >= CTEXTURESMAX,
    ensures
        collect(acc, ls) == acc,
    decreases ls.len(),
{
    if ls.len() > 0 {
        lemma_collect_full(acc, ls.drop_first());
    }
}

proof fn lemma_collect_len(acc: Seq<(u8, Seq<u8>)>, ls: Seq<Seq<u8>>)
    requires
        acc.len() <= CTEXTURESMAX,
        valid_entries(acc),
    ensures
        collect(acc, ls).len() <= CTEXTURESMAX,
        valid_entries(collect(acc, ls)),
    decreases ls.len(),
{
    if ls.len() > 0 {
        let next = match line_entry(ls[0]) {
            Some(e) => if acc.len() < CTEXTURESMAX {
                acc.push(e)
            } else {
                acc
            },
            None => acc,
        };
        lemma_line_entry_valid(ls[0]);
        assert(valid_entries(next));
        lemma_collect_len(next, ls.drop_first());
    }
}

proof fn lemma_line_entry_valid(line: Seq<u8>)
    ensures
        line_entry(line) matches Some(e) ==> is_alpha(e.0) && e.0 == upper(e.0) && valid_name(
            e.1,
        ),
{
}

/// Reads the entries of a materials file in file order.
fn collect_entries(file: &[u8]) -> (r: Vec<TextureEntry>)
    ensures
        entries_view(r@) == file_entries(file@),
        r@.len() <= CTEXTURESMAX,
        valid_entries(entries_view(r@)),
{
    let mut textures: Vec<TextureEntry> = Vec::new();
    let len = file.len();
    let mut pos: usize = 0;
    assert(file@.subrange(0, len as int) =~= file@);
    assert(entries_view(textures@) =~= Seq::<(u8, Seq<u8>)>::empty());
    loop
        invariant_except_break
            collect(entries_view(textures@), lines(file@.subrange(pos as int, len as int)))
                == file_entries(file@),
        invariant
            pos <= len,
            len == file@.len(),
            textures@.len() <= CTEXTURESMAX,
            valid_entries(entries_view(textures@)),
        ensures
            entries_view(textures@) == file_entries(file@),
        decreases len - pos,
    {
        let ghost rest = file@.subrange(pos as int, len as int);
        let mut end = pos;
        while end < len && file[end] != NEWLINE
            invariant
                pos <= end <= len,
                len == file@.len(),
                forall|i: int| pos <= i < end ==> file@[i] != NEWLINE,
            decreases len - end,
        {
            end += 1;
        }
        let line = &file[pos..end];
        proof {
            lemma_first_newline_is(rest, end - pos);
            lemma_first_newline_bounds(rest);
            assert(rest.subrange(0, end - pos) =~= line@);
            if end < len {
                assert(rest.subrange(end - pos + 1, rest.len() as int) =~= file@.subrange(
                    end + 1,
                    len as int,
                ));
            }
        }
        let ghost ls = lines(rest);
        assert(ls[0] == line@);
        let entry = parse_line(line);
        let ghost before = entries_view(textures@);
        match entry {
            Some(e) => {
                if textures.len() >= CTEXTURESMAX {
                    proof {
                        lemma_collect_full(before, ls);
                    }
                    break;
                }
                textures.push(e);
                assert(entries_view(textures@) =~= before.push((e.kind, e.name@)));
            },
            None => {},
        }
        proof {
            lemma_line_entry_valid(line@);
        }
        assert(collect(before, ls) == collect(entries_view(textures@), ls.drop_first()));
        if end == len {
            assert(ls.drop_first() =~= Seq::<Seq<u8>>::empty());
            break;
        }
        assert(ls.drop_first() =~= lines(file@.subrange(end + 1, len as int)));
        pos = end + 1;
    }
    textures
}

/// Finds where a name goes in a sorted table so that it follows every
/// entry it does not order before.
fn insertion_point(sorted: &Vec<TextureEntry>, name: &[u8]) -> (p: usize)
    requires
        sorted_by_name(entries_view(sorted@)),
    ensures
        p <= sorted@.len(),
        forall|j: int| 0 <= j < p ==> !ci_lt(name@, #[trigger] sorted@[j].name@),
        forall|j: int| p <= j < sorted@.len() ==> ci_lt(name@, #[trigger] sorted@[j].name@),
{
    let ghost s = entries_view(sorted@);
    let mut p: usize = 0;
    while p < sorted.len()
        invariant
            p <= sorted@.len(),
            s == entries_view(sorted@),
            sorted_by_name(s),
            forall|j: int| 0 <= j < p ==> !ci_lt(name@, #[trigger] sorted@[j].name@),
        decreases sorted.len() - p,
    {
        if compare_ignore_case(name, sorted[p].name.as_slice()) == CaseOrder::Less {
            assert forall|j: int| p <= j < sorted@.len() implies ci_lt(
                name@,
                #[trigger] sorted@[j].name@,
            ) by {
                if j > p {
                    assert(s[j].1 == sorted@[j].name@);
                    assert(s[p as int].1 == sorted@[p as int].name@);
                    lemma_ci_order(name@, sorted@[p as int].name@, sorted@[j].name@);
                }
            }
            return p;
        }
        p += 1;
    }
    p
}

proof fn lemma_insert_sorted(s: Seq<(u8, Seq<u8>)>, p: int, e: (u8, Seq<u8>))
    requires
        sorted_by_name(s),
        0 <= p <= s.len(),
        forall|j: int| 0 <= j < p ==> !ci_lt(e.1, #[trigger] s[j].1),
        forall|j: int| p <= j < s.len() ==> ci_lt(e.1, #[trigger] s[j].1),
    ensures
        sorted_by_name(s.insert(p, e)),
{
    let t = s.insert(p, e);
    assert forall|i: int, j: int| 0 <= i < j < t.len() implies !ci_lt(
        #[trigger] t[j].1,
        #[trigger] t[i].1,
    ) by {
        if i < p && j < p {
            assert(t[i] == s[i] && t[j] == s[j]);
        } else if i < p && j == p {
            assert(t[i] == s[i]);
        } else if i < p {
            assert(t[i] == s[i] && t[j] == s[j - 1]);
        } else if i == p {
            assert(t[j] == s[j - 1]);
            lemma_ci_order(e.1, s[j - 1].1, e.1);
        } else {
            assert(t[i] == s[i - 1] && t[j] == s[j - 1]);
        }
    }
}

/// The entries of `s` whose name equals `n` ignoring ASCII case, in the
/// order of `s`.
pub open spec fn same_name(s: Seq<(u8, Seq<u8>)>, n: Seq<u8>) -> Seq<(u8, Seq<u8>)>
    decreases s.len(),
{
    if s.len() == 0 {
        Seq::empty()
    } else {
        let r = same_name(s.drop_last(), n);
        if ci_eq(s.last().1, n) {
            r.push(s.last())
        } else {
            r
        }
    }
}

proof fn lemma_same_name_add(a: Seq<(u8, Seq<u8>)>, b: Seq<(u8, Seq<u8>)>, n: Seq<u8>)
    ensures
        same_name(a + b, n) == same_name(a, n) + same_name(b, n),
    decreases b.len(),
{
    if b.len() == 0 {
        assert(a + b =~= a);
        assert(same_name(a, n) + same_name(b, n) =~= same_name(a, n));
    } else {
        lemma_same_name_add(a, b.drop_last(), n);
        assert((a + b).drop_last() =~= a + b.drop_last());
        assert((a + b).last() == b.last());
        if ci_eq(b.last().1, n) {
            assert(same_name(a, n) + same_name(b, n) =~= (same_name(a, n) + same_name(
                b.drop_last(),
                n,
            )).push(b.last()));
        }
    }
}

proof fn lemma_same_name_none(s: Seq<(u8, Seq<u8>)>, n: Seq<u8>)
    requires
        forall|j: int| 0 <= j < s.len() ==> !ci_eq(#[trigger] s[j].1, n),
    ensures
        same_name(s, n) == Seq::<(u8, Seq<u8>)>::empty(),
    decreases s.len(),
{
    if s.len() > 0 {
        lemma_same_name_none(s.drop_last(), n);
        assert(!ci_eq(s[s.len() - 1].1, n));
    }
}

proof fn lemma_same_name_single(e: (u8, Seq<u8>), n: Seq<u8>)
    ensures
        same_name(seq![e], n) == if ci_eq(e.1, n) {
            seq![e]
        } else {
            Seq::<(u8, Seq<u8>)>::empty()
        },
{
    let z = Seq::<(u8, Seq<u8>)>::empty();
    assert(seq![e].drop_last() =~= z);
    assert(seq![e].last() == e);
    assert(same_name(z, n) == z);
    assert(z.push(e) =~= seq![e]);
}

/// Inserting `e` after every entry that does not order after it keeps the
/// entries of each name in their order, `e` last among its own.
proof fn lemma_insert_same_name(s: Seq<(u8, Seq<u8>)>, p: int, e: (u8, Seq<u8>), n: Seq<u8>)
    requires
        0 <= p <= s.len(),
        forall|j: int| p <= j < s.len() ==> ci_lt(e.1, #[trigger] s[j].1),
    ensures
        same_name(s.insert(p, e), n) == same_name(s, n) + same_name(seq![e], n),
{
    let (a, b) = (s.take(p), s.skip(p));
    assert(s =~= a + b);
    assert(s.insert(p, e) =~= a + seq![e] + b);
    lemma_same_name_add(a, b, n);
    lemma_same_name_add(a + seq![e], b, n);
    lemma_same_name_add(a, seq![e], n);
    lemma_same_name_single(e, n);
    if ci_eq(e.1, n) {
        assert forall|j: int| 0 <= j < b.len() implies !ci_eq(#[trigger] b[j].1, n) by {
            assert(b[j] == s[p + j]);
            lemma_ci_order(e.1, b[j].1, n);
            lemma_ci_order(b[j].1, e.1, n);
        }
        lemma_same_name_none(b, n);
        assert(same_name(s, n) =~= same_name(a, n));
        assert(same_name(s.insert(p, e), n) =~= same_name(a, n) + same_name(seq![e], n));
    } else {
        assert(same_name(s.insert(p, e), n) =~= same_name(a, n) + same_name(b, n));
        assert(same_name(s, n) + same_name(seq![e], n) =~= same_name(s, n));
    }
}

/// Sorts entries by name ignoring ASCII case, keeping the order of entries
/// with equal names.
fn sort_entries(v: Vec<TextureEntry>) -> (r: Vec<TextureEntry>)
    ensures
        sorted_by_name(entries_view(r@)),
        entries_view(r@).to_multiset() == entries_view(v@).to_multiset(),
        r@.len() == v@.len(),
        forall|n: Seq<u8>| #[trigger] same_name(entries_view(r@), n) == same_name(entries_view(v@), n),
{
    broadcast use vstd::multiset::group_multiset_axioms;

    let ghost orig = entries_view(v@);
    let mut sorted: Vec<TextureEntry> = Vec::new();
    let mut rest = v;
    assert(entries_view(sorted@) =~= Seq::<(u8, Seq<u8>)>::empty());
    assert(entries_view(sorted@).to_multiset().add(entries_view(rest@).to_multiset())
        =~= orig.to_multiset());
    while rest.len() > 0
        invariant
            sorted_by_name(entries_view(sorted@)),
            entries_view(sorted@).to_multiset().add(entries_view(rest@).to_multiset())
                == orig.to_multiset(),
            sorted@.len() + rest@.len() == orig.len(),
            forall|n: Seq<u8>|
                #[trigger] same_name(entries_view(sorted@), n) + same_name(entries_view(rest@), n)
                    == same_name(orig, n),
        decreases rest.len(),
    {
        let ghost s0 = entries_view(sorted@);
        let ghost r0 = entries_view(rest@);
        let e = rest.remove(0);
        let ghost ev = (e.kind, e.name@);
        assert(entries_view(rest@) =~= r0.remove(0));
        assert(r0[0] == ev);
        let p = insertion_point(&sorted, e.name.as_slice());
        sorted.insert(p, e);
        assert(entries_view(sorted@) =~= s0.insert(p as int, ev));
        proof {
            assert forall|n: Seq<u8>|
                #[trigger] same_name(entries_view(sorted@), n) + same_name(entries_view(rest@), n)
                    == same_name(orig, n) by {
                lemma_insert_same_name(s0, p as int, ev, n);
                assert(r0 =~= seq![ev] + r0.remove(0));
                lemma_same_name_add(seq![ev], r0.remove(0), n);
                assert(same_name(orig, n) == same_name(s0, n) + same_name(r0, n));
                assert(same_name(s0, n) + same_name(seq![ev], n) + same_name(r0.remove(0), n)
                    =~= same_name(s0, n) + (same_name(seq![ev], n) + same_name(r0.remove(0), n)));
            }
            lemma_insert_sorted(s0, p as int, ev);
            vstd::seq_lib::to_multiset_insert(s0, p as int, ev);
            vstd::seq_lib::to_multiset_remove(r0, 0);
            assert(r0.to_multiset().count(ev) > 0);
            assert(s0.to_multiset().insert(ev).add(r0.to_multiset().remove(ev)) =~= s0.to_multiset().add(
                r0.to_multiset(),
            ));
        }
    }
    assert(entries_view(rest@) =~= Seq::<(u8, Seq<u8>)>::empty());
    assert(entries_view(sorted@).to_multiset().add(entries_view(rest@).to_multiset())
        =~= entries_view(sorted@).to_multiset());
    assert forall|n: Seq<u8>| #[trigger] same_name(entries_view(sorted@), n) == same_name(orig, n) by {
        assert(same_name(entries_view(sorted@), n) + same_name(entries_view(rest@), n)
            =~= same_name(entries_view(sorted@), n));
    }
    sorted
}

proof fn lemma_permutation_valid(a: Seq<(u8, Seq<u8>)>, b: Seq<(u8, Seq<u8>)>)
    requires
        a.to_multiset() == b.to_multiset(),
        valid_entries(b),
    ensures
        valid_entries(a),
{
    assert forall|i: int| 0 <= i < a.len() implies is_alpha(#[trigger] a[i].0) && a[i].0 == upper(
        a[i].0,
    ) && valid_name(a[i].1) by {
        assert(a.contains(a[i]));
        assert(a.to_multiset().count(a[i]) > 0);
        assert(b.contains(a[i]));
        let k = choose|k: int| 0 <= k < b.len() && b[k] == a[i];
        assert(is_alpha(b[k].0));
    }
}

impl TextureTypes {
    /// Builds the material table from the contents of `sound/materials.txt`:
    /// the entries of the file in file order (at most `CTEXTURESMAX`),
    /// sorted by name ignoring ASCII case; entries whose names are equal
    /// ignoring case keep their file order.
    pub fn init_texture_types(file: &[u8]) -> (r: TextureTypes)
        ensures
            sorted_by_name(r@),
            r@.len() <= CTEXTURESMAX,
            valid_entries(r@),
            r@.to_multiset() == file_entries(file@).to_multiset(),
            r@.len() == file_entries(file@).len(),
            forall|n: Seq<u8>| #[trigger] same_name(r@, n) == same_name(file_entries(file@), n),
    {
        let entries = collect_entries(file);
        let sorted = sort_entries(entries);
        proof {
            lemma_permutation_valid(entries_view(sorted@), entries_view(entries@));
        }
        TextureTypes { entries: sorted }
    }

    /// Looks a texture name up, ignoring ASCII case. Returns the type of an
    /// entry with that name, or `CHAR_TEX_CONCRETE` when there is none.
    pub fn find_texture_type(&self, name: &[u8]) -> (r: u8)
        ensures
            lookup_result(self@, name@, r),
    {
        proof {
            use_type_invariant(self);
        }
        let ghost s = self@;
        let mut lo: usize = 0;
        let mut hi: usize = self.entries.len();
        while lo < hi
            invariant
                s == self@,
                sorted_by_name(s),
                0 <= lo <= hi <= s.len(),
                forall|i: int| 0 <= i < lo ==> ci_lt(#[trigger] s[i].1, name@),
                forall|i: int| hi <= i < s.len() ==> ci_lt(name@, #[trigger] s[i].1),
            decreases hi - lo,
        {
            let mid = lo + (hi - lo) / 2;
            let e = &self.entries[mid];
            assert(s[mid as int] == (e.kind, e.name@));
            match compare_ignore_case(e.name.as_slice(), name) {
                CaseOrder::Equal => {
                    assert(ci_eq(s[mid as int].1, name@));
                    return e.kind;
                },
                CaseOrder::Less => {
                    assert forall|i: int| 0 <= i < mid + 1 implies ci_lt(#[trigger] s[i].1, name@) by {
                        if i < mid {
                            lemma_ci_order(s[i].1, s[mid as int].1, name@);
                        }
                    }
                    lo = mid + 1;
                },
                CaseOrder::Greater => {
                    proof {
                        lemma_ci_order(e.name@, name@, name@);
                    }
                    assert forall|i: int| mid <= i < s.len() implies ci_lt(name@, #[trigger] s[i].1) by {
                        if i > mid {
                            lemma_ci_order(name@, s[mid as int].1, s[i].1);
                        }
                    }
                    hi = mid;
                },
            }
        }
        assert forall|i: int| 0 <= i < s.len() implies !ci_eq(#[trigger] s[i].1, name@) by {
            lemma_ci_order(s[i].1, name@, s[i].1);
            lemma_ci_order(name@, s[i].1, name@);
        }
        CHAR_TEX_CONCRETE
    }
}

/// The texture under the player: the traced texture's name without its
/// prefixes, and the material type the table gives for it. Without a
/// traced texture the name is empty and the type is concrete.
pub fn catagorize_texture_type(textures: &TextureTypes, traced: Option<&[u8]>) -> (r: (Vec<u8>, u8))
    ensures
        traced is None ==> r.0@ == Seq::<u8>::empty() && r.1 == CHAR_TEX_CONCRETE,
        traced matches Some(n) ==> r.0@ == spec_strip_texture_prefix(n@) && lookup_result(
            textures@,
            r.0@,
            r.1,
        ),
{
    match traced {
        Some(n) => {
            let name = vstd::slice::slice_to_vec(strip_texture_prefix(n));
            let t = textures.find_texture_type(name.as_slice());
            (name, t)
        },
        None => (Vec::new(), CHAR_TEX_CONCRETE),
    }
}

/// Every entry read from the materials file is found again: a lookup, in
/// a table built from the file, of its name written in any case gives the
/// type of an entry of that name; and when the file gives all entries of
/// that name one type, that type.
pub proof fn lemma_file_entries_found(
    file: Seq<u8>,
    table: Seq<(u8, Seq<u8>)>,
    e: (u8, Seq<u8>),
    query: Seq<u8>,
    r: u8,
)
    requires
        table.to_multiset() == file_entries(file).to_multiset(),
        file_entries(file).contains(e),
        ci_eq(e.1, query),
        lookup_result(table, query, r),
    ensures
        exists|i: int| 0 <= i < table.len() && ci_eq(#[trigger] table[i].1, query) && r == table[i].0,
        (forall|j: int|
            0 <= j < file_entries(file).len() && ci_eq(#[trigger] file_entries(file)[j].1, query)
                ==> file_entries(file)[j].0 == e.0) ==> r == e.0,
{
    let fe = file_entries(file);
    assert(fe.to_multiset().count(e) > 0);
    assert(table.contains(e));
    let k = choose|k: int| 0 <= k < table.len() && table[k] == e;
    assert(ci_eq(table[k].1, query));
    let i = choose|i: int| 0 <= i < table.len() && ci_eq(#[trigger] table[i].1, query) && r == table[i].0;
    assert(table.contains(table[i]));
    assert(table.to_multiset().count(table[i]) > 0);
    assert(fe.contains(table[i]));
}

} // verus!
