//! Entry-point renamer: textual substitution over the generated target
//! source, rewriting the vertex-kind and fragment-kind declarations of the
//! default entry-point name to a replacement name. Substitution is keyed on
//! the generator's stable declaration shape (kind keyword, fixed return-type
//! token, function name, opening parenthesis); text without the pattern
//! passes through unchanged.

use vstd::prelude::*;
use vstd::string::*;

use crate::scan::{contains_seq, matches_at, matches_at_exec, push_all};

verus! {

/// Left-to-right, non-overlapping replacement of `from` by `to` in `s`.
/// An empty pattern never rewrites anything.
pub open spec fn replace_seq(s: Seq<u8>, from: Seq<u8>, to: Seq<u8>) -> Seq<u8>
    decreases s.len(),
{
    if from.len() == 0 || s.len() < from.len() {
        s
    } else if s.subrange(0, from.len() as int) == from {
        to + replace_seq(s.skip(from.len() as int), from, to)
    } else {
        seq![s[0]] + replace_seq(s.skip(1), from, to)
    }
}

/// The vertex-kind declaration of entry point `name` in generated output.
pub open spec fn vertex_decl(name: Seq<u8>) -> Seq<u8> {
    "vertex main_Output ".spec_bytes() + name + "(".spec_bytes()
}

/// The fragment-kind declaration of entry point `name` in generated output.
pub open spec fn fragment_decl(name: Seq<u8>) -> Seq<u8> {
    "fragment main_Output ".spec_bytes() + name + "(".spec_bytes()
}

/// Renaming rewrites the vertex-kind declaration first, then the
/// fragment-kind declaration, both unconditionally.
pub open spec fn rename_spec(s: Seq<u8>, old_name: Seq<u8>, new_name: Seq<u8>) -> Seq<u8> {
    replace_seq(
        replace_seq(s, vertex_decl(old_name), vertex_decl(new_name)),
        fragment_decl(old_name),
        fragment_decl(new_name),
    )
}

proof fn lemma_lparen_nonempty()
    ensures
        "(".spec_bytes().len() == 1,
{
    reveal_strlit("(");
    assert(is_ascii("("));
    is_ascii_spec_bytes("(");
}

/// Replaces every occurrence of `from` in `s` by `to`, scanning left to
/// right without overlap.
pub fn replace_bytes(s: &[u8], from: &[u8], to: &[u8]) -> (r: Vec<u8>)
    requires
        from@.len() > 0,
    ensures
        r@ == replace_seq(s@, from@, to@),
{
    let n: usize = s.len();
    let m: usize = from.len();
    let mut r: Vec<u8> = Vec::new();
    let mut i: usize = 0;
    proof {
        assert(s@.skip(0) =~= s@);
    }
    while i < n
        invariant
            m == from@.len(),
            0 < m,
            n == s@.len(),
            i <= n,
            replace_seq(s@, from@, to@) == r@ + replace_seq(s@.skip(i as int), from@, to@),
        decreases n - i,
    {
        let ghost r0 = r@;
        let ghost rest = s@.skip(i as int);
        if m <= n - i && matches_at_exec(s, from, i) {
            push_all(&mut r, to);
            proof {
                assert(rest.subrange(0, m as int) =~= s@.subrange(i as int, i + m));
                assert(rest.skip(m as int) =~= s@.skip(i + m));
                assert(replace_seq(rest, from@, to@) == to@ + replace_seq(
                    s@.skip(i + m),
                    from@,
                    to@,
                ));
                assert(r0 + (to@ + replace_seq(s@.skip(i + m), from@, to@)) =~= r@ + replace_seq(
                    s@.skip(i + m),
                    from@,
                    to@,
                ));
            }
            i = i + m;
        } else {
            let c = s[i];
            r.push(c);
            proof {
                let rest1 = s@.skip(i + 1);
                assert(rest =~= seq![s@[i as int]] + rest1);
                if m <= n - i {
                    assert(rest.subrange(0, m as int) =~= s@.subrange(i as int, i + m));
                    assert(rest.skip(1) =~= rest1);
                    assert(replace_seq(rest, from@, to@) == seq![rest[0]] + replace_seq(
                        rest1,
                        from@,
                        to@,
                    ));
                } else {
                    assert(replace_seq(rest, from@, to@) == rest);
                    assert(rest1.len() < m);
                    assert(replace_seq(rest1, from@, to@) == rest1);
                }
                assert(r0 + (seq![s@[i as int]] + replace_seq(rest1, from@, to@)) =~= r@
                    + replace_seq(rest1, from@, to@));
            }
            i = i + 1;
        }
    }
    proof {
        assert(s@.skip(n as int) =~= Seq::<u8>::empty());
        assert(r@ + Seq::<u8>::empty() =~= r@);
    }
    r
}

fn vertex_decl_bytes(name: &[u8]) -> (r: Vec<u8>)
    ensures
        r@ == vertex_decl(name@),
{
    let mut v = "vertex main_Output ".as_bytes_vec();
    push_all(&mut v, name);
    let p = "(".as_bytes_vec();
    push_all(&mut v, p.as_slice());
    v
}

fn fragment_decl_bytes(name: &[u8]) -> (r: Vec<u8>)
    ensures
        r@ == fragment_decl(name@),
{
    let mut v = "fragment main_Output ".as_bytes_vec();
    push_all(&mut v, name);
    let p = "(".as_bytes_vec();
    push_all(&mut v, p.as_slice());
    v
}

/// Rewrites the vertex-kind and fragment-kind declarations of `old_name` in
/// the generated source to use `new_name`. Text without either declaration
/// pattern comes back unchanged.
pub fn rename_entrypoint(source: &[u8], old_name: &[u8], new_name: &[u8]) -> (r: Vec<u8>)
    ensures
        r@ == rename_spec(source@, old_name@, new_name@),
{
    proof {
        lemma_lparen_nonempty();
    }
    let vd_old = vertex_decl_bytes(old_name);
    let vd_new = vertex_decl_bytes(new_name);
    let fd_old = fragment_decl_bytes(old_name);
    let fd_new = fragment_decl_bytes(new_name);
    let pass1 = replace_bytes(source, vd_old.as_slice(), vd_new.as_slice());
    replace_bytes(pass1.as_slice(), fd_old.as_slice(), fd_new.as_slice())
}

/// Law: replacement is the identity on text with no occurrence of the
/// pattern.
pub proof fn lemma_replace_absent(s: Seq<u8>, from: Seq<u8>, to: Seq<u8>)
    requires
        !contains_seq(s, from),
    ensures
        replace_seq(s, from, to) == s,
    decreases s.len(),
{
    if from.len() == 0 {
        assert(s.subrange(0, 0) =~= from);
        assert(matches_at(s, from, 0));
    } else if s.len() < from.len() {
    } else if s.subrange(0, from.len() as int) == from {
        assert(matches_at(s, from, 0));
    } else {
        assert forall|i: int| !matches_at(s.skip(1), from, i) by {
            if matches_at(s.skip(1), from, i) {
                assert(s.skip(1).subrange(i, i + from.len()) =~= s.subrange(
                    i + 1,
                    i + 1 + from.len(),
                ));
                assert(matches_at(s, from, i + 1));
            }
        }
        lemma_replace_absent(s.skip(1), from, to);
        assert(seq![s[0]] + s.skip(1) =~= s);
    }
}

/// Law: renaming is the identity on text that contains neither the
/// vertex-kind nor the fragment-kind declaration of the old name.
pub proof fn lemma_rename_noop(s: Seq<u8>, old_name: Seq<u8>, new_name: Seq<u8>)
    requires
        !contains_seq(s, vertex_decl(old_name)),
        !contains_seq(s, fragment_decl(old_name)),
    ensures
        rename_spec(s, old_name, new_name) == s,
{
    lemma_replace_absent(s, vertex_decl(old_name), vertex_decl(new_name));
    lemma_replace_absent(s, fragment_decl(old_name), fragment_decl(new_name));
}

/// Law: on text `a + from + b` whose first occurrence of `from` is the one
/// shown, replacement copies `a` byte-identically, rewrites that
/// occurrence, and continues on `b` alone — so later occurrences are
/// handled within `b` and nothing outside an occurrence ever changes.
pub proof fn lemma_replace_at_first(a: Seq<u8>, from: Seq<u8>, b: Seq<u8>, to: Seq<u8>)
    requires
        from.len() > 0,
        forall|i: int| 0 <= i < a.len() ==> !matches_at(a + from + b, from, i),
    ensures
        replace_seq(a + from + b, from, to) == a + to + replace_seq(b, from, to),
    decreases a.len(),
{
    let s = a + from + b;
    let m = from.len() as int;
    if a.len() == 0 {
        assert(s.subrange(0, m) =~= from);
        assert(s.skip(m) =~= b);
        assert(to + replace_seq(b, from, to) =~= a + to + replace_seq(b, from, to));
    } else {
        assert(m <= s.len());
        assert(!matches_at(s, from, 0));
        assert(s.subrange(0, m) != from);
        let a1 = a.skip(1);
        let s1 = a1 + from + b;
        assert(s.skip(1) =~= s1);
        assert forall|i: int| 0 <= i < a1.len() implies !matches_at(s1, from, i) by {
            if matches_at(s1, from, i) {
                assert(s1.subrange(i, i + m) =~= s.subrange(i + 1, i + 1 + m));
                assert(matches_at(s, from, i + 1));
            }
        }
        lemma_replace_at_first(a1, from, b, to);
        assert(replace_seq(s, from, to) == seq![s[0]] + (a1 + to + replace_seq(b, from, to)));
        assert(seq![s[0]] + (a1 + to + replace_seq(b, from, to)) =~= a + to + replace_seq(
            b,
            from,
            to,
        ));
    }
}

/// Law: on text `a + from + b` whose only occurrence of `from` is the one
/// shown, replacement rewrites exactly that occurrence and leaves `a` and
/// `b` byte-identical.
pub proof fn lemma_replace_single(a: Seq<u8>, from: Seq<u8>, b: Seq<u8>, to: Seq<u8>)
    requires
        from.len() > 0,
        forall|i: int| 0 <= i < a.len() ==> !matches_at(a + from + b, from, i),
        !contains_seq(b, from),
    ensures
        replace_seq(a + from + b, from, to) == a + to + b,
{
    lemma_replace_at_first(a, from, b, to);
    lemma_replace_absent(b, from, to);
}

/// Law: when the vertex pass's result contains no fragment-kind
/// declaration of the old name, renaming is exactly the vertex pass — with
/// [`lemma_replace_at_first`] this accounts for any number of vertex-kind
/// occurrences while everything else stays byte-identical.
pub proof fn lemma_rename_vertex_pass_only(s: Seq<u8>, old_name: Seq<u8>, new_name: Seq<u8>)
    requires
        !contains_seq(
            replace_seq(s, vertex_decl(old_name), vertex_decl(new_name)),
            fragment_decl(old_name),
        ),
    ensures
        rename_spec(s, old_name, new_name) == replace_seq(
            s,
            vertex_decl(old_name),
            vertex_decl(new_name),
        ),
{
    lemma_replace_absent(
        replace_seq(s, vertex_decl(old_name), vertex_decl(new_name)),
        fragment_decl(old_name),
        fragment_decl(new_name),
    );
}

/// Law: on text with no vertex-kind declaration of the old name, renaming
/// is exactly the fragment pass.
pub proof fn lemma_rename_fragment_pass_only(s: Seq<u8>, old_name: Seq<u8>, new_name: Seq<u8>)
    requires
        !contains_seq(s, vertex_decl(old_name)),
    ensures
        rename_spec(s, old_name, new_name) == replace_seq(
            s,
            fragment_decl(old_name),
            fragment_decl(new_name),
        ),
{
    lemma_replace_absent(s, vertex_decl(old_name), vertex_decl(new_name));
}

/// Law: on text whose only vertex-kind declaration occurrence is the one
/// shown and which contains no fragment-kind declaration of the old name,
/// renaming rewrites exactly the vertex-kind declaration and leaves the
/// surrounding text byte-identical.
pub proof fn lemma_rename_single_vertex(a: Seq<u8>, b: Seq<u8>, old_name: Seq<u8>, new_name: Seq<u8>)
    requires
        forall|i: int|
            0 <= i < a.len() ==> !matches_at(
                a + vertex_decl(old_name) + b,
                vertex_decl(old_name),
                i,
            ),
        !contains_seq(b, vertex_decl(old_name)),
        !contains_seq(a + vertex_decl(new_name) + b, fragment_decl(old_name)),
    ensures
        rename_spec(a + vertex_decl(old_name) + b, old_name, new_name) == a + vertex_decl(new_name)
            + b,
{
    lemma_lparen_nonempty();
    lemma_replace_single(a, vertex_decl(old_name), b, vertex_decl(new_name));
    lemma_replace_absent(
        a + vertex_decl(new_name) + b,
        fragment_decl(old_name),
        fragment_decl(new_name),
    );
}

/// Law: on text whose only fragment-kind declaration occurrence is the one
/// shown and which contains no vertex-kind declaration of the old name,
/// renaming rewrites exactly the fragment-kind declaration and leaves the
/// surrounding text byte-identical.
pub proof fn lemma_rename_single_fragment(
    a: Seq<u8>,
    b: Seq<u8>,
    old_name: Seq<u8>,
    new_name: Seq<u8>,
)
    requires
        !contains_seq(a + fragment_decl(old_name) + b, vertex_decl(old_name)),
        forall|i: int|
            0 <= i < a.len() ==> !matches_at(
                a + fragment_decl(old_name) + b,
                fragment_decl(old_name),
                i,
            ),
        !contains_seq(b, fragment_decl(old_name)),
    ensures
        rename_spec(a + fragment_decl(old_name) + b, old_name, new_name) == a + fragment_decl(
            new_name,
        ) + b,
{
    lemma_lparen_nonempty();
    lemma_replace_absent(
        a + fragment_decl(old_name) + b,
        vertex_decl(old_name),
        vertex_decl(new_name),
    );
    lemma_replace_single(a, fragment_decl(old_name), b, fragment_decl(new_name));
}

} // verus!
