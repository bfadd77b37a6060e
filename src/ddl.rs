//! Assembly and repair of the DDL text that the database returns for a table.
//!
//! The database hands the DDL back in fragments. Some statements that it
//! generates after the table's own (the index behind a primary key, a unique
//! index) come without a terminator: the previous statement ends in a space
//! and a newline only. The repair puts a `;` in place of that space.
use vstd::prelude::*;
use crate::text::{chars_of, push_chars};

verus! {

broadcast use vstd::string::group_string_axioms;

/// The gap before an `ALTER TABLE` statement that lacks its terminator.
pub open spec fn alter_gap() -> Seq<char> {
    " \nALTER TABLE "@
}

/// The gap before a `CREATE UNIQUE INDEX` statement that lacks its terminator.
pub open spec fn index_gap() -> Seq<char> {
    " \n  CREATE UNIQUE INDEX"@
}

/// Puts a `;` in place of the first character of every occurrence of `p`
/// in `s`, overlapping occurrences included.
pub open spec fn patch(s: Seq<char>, p: Seq<char>) -> Seq<char> {
    Seq::new(s.len(), |i: int| if occurs_at(s, p, i) { ';' } else { s[i] })
}

/// The two repairs, the `ALTER TABLE` one first.
pub open spec fn normalize(s: Seq<char>) -> Seq<char> {
    patch(patch(s, alter_gap()), index_gap())
}

/// Each fragment followed by a newline.
pub open spec fn fragment_lines(fragments: Seq<Seq<char>>) -> Seq<char>
    decreases fragments.len(),
{
    if fragments.len() == 0 {
        Seq::empty()
    } else {
        fragment_lines(fragments.drop_last()) + fragments.last() + seq!['\n']
    }
}

/// The DDL block of a table: its fragments, one per line, a closing `;` line,
/// and the two repairs.
pub open spec fn ddl_text(fragments: Seq<Seq<char>>) -> Seq<char> {
    normalize(fragment_lines(fragments) + ";\n"@)
}

/// Whether `p` occurs in `s` at `i`.
pub open spec fn occurs_at(s: Seq<char>, p: Seq<char>, i: int) -> bool {
    0 <= i && i + p.len() <= s.len() && s.subrange(i, i + p.len()) == p
}

/// `p` does not occur in `s`.
pub open spec fn free_of(s: Seq<char>, p: Seq<char>) -> bool {
    forall|i: int| !#[trigger] occurs_at(s, p, i)
}

/// `p` holds no `;`.
pub open spec fn no_semicolon(p: Seq<char>) -> bool {
    forall|k: int| 0 <= k < p.len() ==> #[trigger] p[k] != ';'
}

/// Where `p` does not occur, a patch changes nothing.
proof fn lemma_patch_free(s: Seq<char>, p: Seq<char>)
    requires
        free_of(s, p),
    ensures
        patch(s, p) == s,
{
    assert forall|i: int| 0 <= i < s.len() implies #[trigger] patch(s, p)[i] == s[i] by {
        assert(!occurs_at(s, p, i));
    }
    assert(patch(s, p) =~= s);
}

/// A change of characters into `;` creates no occurrence of a text without
/// `;`.
proof fn lemma_free_kept(s: Seq<char>, r: Seq<char>, q: Seq<char>)
    requires
        r.len() == s.len(),
        forall|i: int| 0 <= i < s.len() ==> #[trigger] r[i] == s[i] || r[i] == ';',
        no_semicolon(q),
        free_of(s, q),
    ensures
        free_of(r, q),
{
    assert forall|i: int| !#[trigger] occurs_at(r, q, i) by {
        if occurs_at(r, q, i) {
            assert forall|k: int| 0 <= k < q.len() implies #[trigger] s.subrange(i, i + q.len())[k]
                == q[k] by {
                assert(r.subrange(i, i + q.len())[k] == r[i + k]);
                assert(r[i + k] == s[i + k] || r[i + k] == ';');
            }
            assert(s.subrange(i, i + q.len()) =~= q);
            assert(occurs_at(s, q, i));
        }
    }
}

/// After a patch with a non-empty text that holds no `;`, that text no
/// longer occurs.
proof fn lemma_patch_clears(s: Seq<char>, p: Seq<char>)
    requires
        p.len() > 0,
        no_semicolon(p),
    ensures
        free_of(patch(s, p), p),
{
    let r = patch(s, p);
    assert forall|i: int| !#[trigger] occurs_at(r, p, i) by {
        if occurs_at(r, p, i) {
            assert forall|k: int| 0 <= k < p.len() implies #[trigger] s.subrange(i, i + p.len())[k]
                == p[k] by {
                assert(r.subrange(i, i + p.len())[k] == r[i + k]);
                assert(p[k] != ';');
            }
            assert(s.subrange(i, i + p.len()) =~= p);
            assert(r.subrange(i, i + p.len())[0] == r[i]);
            assert(p[0] != ';');
        }
    }
}

/// Repaired DDL text holds no unterminated `ALTER TABLE` or
/// `CREATE UNIQUE INDEX` gap, so repairing it again changes nothing.
pub proof fn lemma_normalize_idempotent(s: Seq<char>)
    ensures
        free_of(normalize(s), alter_gap()),
        free_of(normalize(s), index_gap()),
        normalize(normalize(s)) == normalize(s),
{
    reveal_strlit(" \nALTER TABLE ");
    reveal_strlit(" \n  CREATE UNIQUE INDEX");
    let a = alter_gap();
    let b = index_gap();
    assert(no_semicolon(a));
    assert(no_semicolon(b));
    let u = patch(s, a);
    let t = patch(u, b);
    lemma_patch_clears(s, a);
    lemma_patch_clears(u, b);
    assert forall|i: int| 0 <= i < u.len() implies #[trigger] t[i] == u[i] || t[i] == ';' by {}
    lemma_free_kept(u, t, a);
    lemma_patch_free(t, a);
    lemma_patch_free(t, b);
}

fn occurs_at_exec(s: &Vec<char>, p: &Vec<char>, i: usize) -> (r: bool)
    ensures
        r == occurs_at(s@, p@, i as int),
{
    if i > s.len() || p.len() > s.len() - i {
        return false;
    }
    let mut k: usize = 0;
    while k < p.len()
        invariant
            i + p@.len() <= s@.len(),
            s@.len() == s.len(),
            k <= p@.len(),
            forall|j: int| 0 <= j < k ==> s@[i + j] == p@[j],
        decreases p@.len() - k,
    {
        if s[i + k] != p[k] {
            assert(s@.subrange(i as int, i + p@.len())[k as int] != p@[k as int]);
            return false;
        }
        k = k + 1;
    }
    assert(s@.subrange(i as int, i + p@.len()) =~= p@);
    true
}

/// Executable form of `patch`.
fn patch_exec(s: &Vec<char>, p: &Vec<char>) -> (r: Vec<char>)
    ensures
        r@ == patch(s@, p@),
{
    let mut out: Vec<char> = Vec::new();
    let mut i: usize = 0;
    while i < s.len()
        invariant
            i <= s@.len(),
            out@ == patch(s@, p@).subrange(0, i as int),
        decreases s@.len() - i,
    {
        if occurs_at_exec(s, p, i) {
            out.push(';');
        } else {
            out.push(s[i]);
        }
        i = i + 1;
        assert(out@ =~= patch(s@, p@).subrange(0, i as int));
    }
    assert(out@ =~= patch(s@, p@));
    out
}

/// Applies the two repairs to a DDL text.
pub fn normalize_ddl(ddl: &str) -> (r: String)
    ensures
        r@ == normalize(ddl@),
{
    let a = patch_exec(&chars_of(ddl), &chars_of(" \nALTER TABLE "));
    let b = patch_exec(&a, &chars_of(" \n  CREATE UNIQUE INDEX"));
    let mut r = String::new();
    push_chars(&mut r, &b);
    r
}

/// The repaired DDL block of a table from the fragments that the database
/// returned, in order.
pub fn assemble_ddl(fragments: &Vec<String>) -> (r: String)
    ensures
        r@ == ddl_text(fragments@.map_values(|f: String| f@)),
{
    let ghost views = fragments@.map_values(|f: String| f@);
    let mut raw = String::new();
    let mut i: usize = 0;
    while i < fragments.len()
        invariant
            i <= fragments@.len(),
            views == fragments@.map_values(|f: String| f@),
            raw@ == fragment_lines(views.subrange(0, i as int)),
        decreases fragments@.len() - i,
    {
        raw.append(fragments[i].as_str());
        raw.push('\n');
        i = i + 1;
        assert(views.subrange(0, i as int).drop_last() =~= views.subrange(0, i - 1));
    }
    assert(views.subrange(0, fragments@.len() as int) =~= views);
    raw.append(";\n");
    normalize_ddl(raw.as_str())
}

} // verus!
