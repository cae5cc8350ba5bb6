//! Laws of sandbox path normalisation: a normal form is absolute, made of
//! directory names only, and normalising it again leaves it unchanged.

use vstd::prelude::*;
use crate::backend_path::{
    apply_part, fold_parts, is_absolute, is_clean_part, normal_form, normalize_outcome, render_dirs,
    split_slash,
};
use crate::text::join;

verus! {

proof fn lemma_split_parts_have_no_slash(s: Seq<char>)
    ensures
        split_slash(s).len() >= 1,
        forall|k: int| 0 <= k < split_slash(s).len() ==> !(#[trigger] split_slash(s)[k]).contains('/'),
    decreases s.len(),
{
    if s.len() > 0 {
        let p = split_slash(s.drop_last());
        lemma_split_parts_have_no_slash(s.drop_last());
        if s.last() == '/' {
            assert forall|k: int| 0 <= k < split_slash(s).len() implies !(#[trigger] split_slash(s)[k]).contains('/') by {
                if k < p.len() {
                    assert(split_slash(s)[k] == p[k]);
                } else {
                    assert(split_slash(s)[k] =~= Seq::<char>::empty());
                }
            }
        } else {
            let last = p.last().push(s.last());
            assert forall|k: int| 0 <= k < split_slash(s).len() implies !(#[trigger] split_slash(s)[k]).contains('/') by {
                if k < p.len() - 1 {
                    assert(split_slash(s)[k] == p[k]);
                } else {
                    assert(split_slash(s)[k] == last);
                    assert(!p[p.len() - 1].contains('/'));
                    if last.contains('/') {
                        let j = choose|j: int| 0 <= j < last.len() && last[j] == '/';
                        if j < p.last().len() {
                            assert(p.last()[j] == '/');
                        }
                    }
                }
            }
        }
    }
}

proof fn lemma_fold_gives_clean_dirs(parts: Seq<Seq<char>>)
    requires
        forall|k: int| 0 <= k < parts.len() ==> !(#[trigger] parts[k]).contains('/'),
    ensures
        fold_parts(parts) matches Some(st) ==> forall|k: int| 0 <= k < st.len() ==> is_clean_part(#[trigger] st[k]),
    decreases parts.len(),
{
    if parts.len() > 0 {
        let init = parts.drop_last();
        assert forall|k: int| 0 <= k < init.len() implies !(#[trigger] init[k]).contains('/') by {
            assert(init[k] == parts[k]);
        }
        lemma_fold_gives_clean_dirs(init);
        assert(!parts[parts.len() - 1].contains('/'));
    }
}

proof fn lemma_split_after_slash(x: Seq<char>, b: Seq<char>)
    requires
        !b.contains('/'),
    ensures
        split_slash(x + seq!['/'] + b) == split_slash(x).push(b),
    decreases b.len(),
{
    lemma_split_parts_have_no_slash(x);
    let s = x + seq!['/'] + b;
    if b.len() == 0 {
        assert(s =~= x.push('/'));
        assert(s.drop_last() =~= x);
        assert(s.last() == '/');
        assert(b =~= Seq::<char>::empty());
        assert(split_slash(s) == split_slash(s.drop_last()).push(Seq::empty()));
    } else {
        let b0 = b.drop_last();
        assert(!b0.contains('/')) by {
            if b0.contains('/') {
                let j = choose|j: int| 0 <= j < b0.len() && b0[j] == '/';
                assert(b[j] == '/');
            }
        }
        lemma_split_after_slash(x, b0);
        assert((x + seq!['/'] + b).drop_last() =~= x + seq!['/'] + b0);
        assert((x + seq!['/'] + b).last() == b.last());
        assert(b.last() != '/') by {
            assert(b[b.len() - 1] == b.last());
        }
        assert(b0.push(b.last()) =~= b);
        let p = split_slash(s.drop_last());
        assert(p == split_slash(x).push(b0));
        assert(p.last() == b0);
        assert(split_slash(s) == p.update(p.len() - 1, p.last().push(s.last())));
        assert(split_slash(x).push(b0).update(split_slash(x).len() as int, b) =~= split_slash(x).push(b));
    }
}

proof fn lemma_split_of_rendered(st: Seq<Seq<char>>)
    requires
        st.len() >= 1,
        forall|k: int| 0 <= k < st.len() ==> is_clean_part(#[trigger] st[k]),
    ensures
        split_slash(render_dirs(st)) == seq![Seq::<char>::empty()] + st,
    decreases st.len(),
{
    reveal_strlit("/");
    assert("/"@ =~= seq!['/']);
    if st.len() == 1 {
        assert(is_clean_part(st[0]));
        assert(render_dirs(st) =~= Seq::<char>::empty() + seq!['/'] + st[0]);
        lemma_split_after_slash(Seq::empty(), st[0]);
        assert(split_slash(Seq::<char>::empty()) =~= seq![Seq::<char>::empty()]);
        assert(seq![Seq::<char>::empty()].push(st[0]) =~= seq![Seq::<char>::empty()] + st);
    } else {
        let init = st.drop_last();
        assert forall|k: int| 0 <= k < init.len() implies is_clean_part(#[trigger] init[k]) by {
            assert(init[k] == st[k]);
        }
        lemma_split_of_rendered(init);
        assert(is_clean_part(st[st.len() - 1]));
        assert(render_dirs(st) =~= render_dirs(init) + seq!['/'] + st.last());
        lemma_split_after_slash(render_dirs(init), st.last());
        assert((seq![Seq::<char>::empty()] + init).push(st.last()) =~= seq![Seq::<char>::empty()] + st);
    }
}

proof fn lemma_fold_rooted_clean(st: Seq<Seq<char>>)
    requires
        forall|k: int| 0 <= k < st.len() ==> is_clean_part(#[trigger] st[k]),
    ensures
        fold_parts(seq![Seq::<char>::empty()] + st) == Some(st),
    decreases st.len(),
{
    if st.len() == 0 {
        assert(seq![Seq::<char>::empty()] + st =~= seq![Seq::<char>::empty()]);
        assert(seq![Seq::<char>::empty()].drop_last() =~= Seq::<Seq<char>>::empty());
        assert(st =~= Seq::<Seq<char>>::empty());
        let e = Seq::<char>::empty();
        assert(fold_parts(seq![e].drop_last()) == Some(Seq::<Seq<char>>::empty()));
        assert(seq![e].last() == e);
        assert(fold_parts(seq![Seq::<char>::empty()]) == apply_part(Some(Seq::<Seq<char>>::empty()), Seq::<char>::empty()));
    } else {
        let init = st.drop_last();
        assert forall|k: int| 0 <= k < init.len() implies is_clean_part(#[trigger] init[k]) by {
            assert(init[k] == st[k]);
        }
        lemma_fold_rooted_clean(init);
        assert((seq![Seq::<char>::empty()] + st).drop_last() =~= seq![Seq::<char>::empty()] + init);
        assert(is_clean_part(st[st.len() - 1]));
        assert(init.push(st.last()) =~= st);
        let r = seq![Seq::<char>::empty()] + st;
        assert(r.last() == st.last());
        assert(fold_parts(r) == apply_part(fold_parts(r.drop_last()), r.last()));
        assert(st.last() == st[st.len() - 1]);
    }
}

/// A normal form is an absolute path whose parts all name directory
/// entries (none is empty, `.` or `..`).
pub proof fn law_normal_form_is_clean(p: Seq<char>)
    ensures
        fold_parts(split_slash(p)) matches Some(st) ==> forall|k: int| 0 <= k < st.len() ==> is_clean_part(#[trigger] st[k]),
        normal_form(p) matches Some(q) ==> is_absolute(q),
{
    reveal_strlit("/");
    lemma_split_parts_have_no_slash(p);
    lemma_fold_gives_clean_dirs(split_slash(p));
}

/// Normalising a normalised path gives it back unchanged.
pub proof fn law_normalize_is_idempotent(p: Seq<char>)
    requires
        normal_form(p) is Some,
    ensures
        normalize_outcome(normal_form(p).unwrap()) == Ok::<Seq<char>, Seq<char>>(normal_form(p).unwrap()),
{
    reveal_strlit("/");
    law_normal_form_is_clean(p);
    let st = fold_parts(split_slash(p)).unwrap();
    let q = render_dirs(st);
    assert(q[0] == '/');
    if st.len() == 0 {
        assert(q =~= seq!['/']);
        assert(q.drop_last() =~= Seq::<char>::empty());
        assert(split_slash(Seq::<char>::empty()) =~= seq![Seq::<char>::empty()]);
        assert(split_slash(q) =~= seq![Seq::<char>::empty(), Seq::<char>::empty()]);
        assert(split_slash(q).drop_last() =~= seq![Seq::<char>::empty()]);
        assert(seq![Seq::<char>::empty()].drop_last() =~= Seq::<Seq<char>>::empty());
        assert(join(st, "/"@) =~= Seq::<char>::empty());
        let e = Seq::<char>::empty();
        assert(fold_parts(seq![e].drop_last()) == Some(Seq::<Seq<char>>::empty()));
        assert(fold_parts(seq![e]) == Some(Seq::<Seq<char>>::empty()));
        assert(fold_parts(split_slash(q)) == apply_part(fold_parts(seq![e]), e));
        assert(normal_form(q) == Some(render_dirs(Seq::<Seq<char>>::empty())));
    } else {
        lemma_split_of_rendered(st);
        lemma_fold_rooted_clean(st);
    }
}

} // verus!
