//! The wire-level representation of a renderable query: a sequence of
//! fragments, each either literal sql text or a bind parameter.  Rendering
//! walks the fragments, numbering bind parameters `$1`, `$2`, ... in order
//! of appearance and collecting their values.

use vstd::prelude::*;
use vstd::string::StringExecFns;
use crate::text::{dec_str, int_dec, quote};
use crate::text::{i64_dec, u64_dec};

verus! {

/// The wire type of an exposed column.
#[derive(Clone, Copy, PartialEq, Eq, Structural, Debug)]
pub enum SqlType {
    Int8,
    Text,
}

/// A bind parameter value, carried through rendering unchanged.
#[derive(Debug, PartialEq)]
pub enum Bind {
    Int(i64),
    Text(String),
}

/// The mathematical value of a bind parameter.
pub enum BindView {
    Int(int),
    Text(Seq<char>),
}

impl View for Bind {
    type V = BindView;

    open spec fn view(&self) -> BindView {
        match self {
            Bind::Int(n) => BindView::Int(*n as int),
            Bind::Text(s) => BindView::Text(s@),
        }
    }
}

impl Bind {
    /// An independent copy of the value.
    pub fn dup(&self) -> (r: Bind)
        ensures
            r == *self,
    {
        match self {
            Bind::Int(n) => Bind::Int(*n),
            Bind::Text(s) => Bind::Text(s.clone()),
        }
    }
}

/// One renderable unit: literal sql text, or a bind parameter that the
/// walk replaces by a numbered placeholder.
#[derive(Debug)]
pub enum Fragment {
    Sql(String),
    Bind(Bind),
}

/// The mathematical value of a fragment.
pub enum FragmentView {
    Sql(Seq<char>),
    Bind(BindView),
}

impl View for Fragment {
    type V = FragmentView;

    open spec fn view(&self) -> FragmentView {
        match self {
            Fragment::Sql(s) => FragmentView::Sql(s@),
            Fragment::Bind(b) => FragmentView::Bind(b@),
        }
    }
}

impl Fragment {
    /// An independent copy of the value.
    pub fn dup(&self) -> (r: Fragment)
        ensures
            r == *self,
    {
        match self {
            Fragment::Sql(s) => Fragment::Sql(s.clone()),
            Fragment::Bind(b) => Fragment::Bind(b.dup()),
        }
    }
}

/// The views of a sequence of fragments.
pub open spec fn frags_view(s: Seq<Fragment>) -> Seq<FragmentView> {
    s.map_values(|f: Fragment| f@)
}

/// The views of a sequence of bind values.
pub open spec fn binds_view(s: Seq<Bind>) -> Seq<BindView> {
    s.map_values(|b: Bind| b@)
}

/// The placeholder text for bind parameter number `n`.
pub open spec fn placeholder(n: nat) -> Seq<char> {
    "$"@ + dec_str(n)
}

/// The sql text of a fragment sequence, with `k` bind parameters already
/// emitted before it: each bind fragment becomes the next numbered
/// placeholder.
pub open spec fn frag_sql(fs: Seq<FragmentView>, k: nat) -> Seq<char>
    decreases fs.len(),
{
    if fs.len() == 0 {
        Seq::<char>::empty()
    } else {
        match fs[0] {
            FragmentView::Sql(t) => t + frag_sql(fs.drop_first(), k),
            FragmentView::Bind(_) => placeholder(k + 1) + frag_sql(fs.drop_first(), k + 1),
        }
    }
}

/// The bind values of a fragment sequence, in order of appearance.
pub open spec fn frag_binds(fs: Seq<FragmentView>) -> Seq<BindView>
    decreases fs.len(),
{
    if fs.len() == 0 {
        Seq::<BindView>::empty()
    } else {
        match fs[0] {
            FragmentView::Sql(_) => frag_binds(fs.drop_first()),
            FragmentView::Bind(b) => seq![b] + frag_binds(fs.drop_first()),
        }
    }
}

/// The bind values of concatenated fragment sequences are the
/// concatenated bind values.
pub proof fn lemma_frag_binds_concat(a: Seq<FragmentView>, b: Seq<FragmentView>)
    ensures
        frag_binds(a + b) == frag_binds(a) + frag_binds(b),
    decreases a.len(),
{
    if a.len() == 0 {
        assert(a + b =~= b);
        assert(frag_binds(a) + frag_binds(b) =~= frag_binds(b));
    } else {
        assert((a + b).drop_first() =~= a.drop_first() + b);
        assert((a + b)[0] == a[0]);
        lemma_frag_binds_concat(a.drop_first(), b);
        match a[0] {
            FragmentView::Sql(_) => {
            },
            FragmentView::Bind(bv) => {
                assert(seq![bv] + (frag_binds(a.drop_first()) + frag_binds(b)) =~= (seq![bv]
                    + frag_binds(a.drop_first())) + frag_binds(b));
            },
        }
    }
}

/// The sql text of concatenated fragment sequences is the concatenated
/// text, the second part numbered after the first part's binds.
pub proof fn lemma_frag_sql_concat(a: Seq<FragmentView>, b: Seq<FragmentView>, k: nat)
    ensures
        frag_sql(a + b, k) == frag_sql(a, k) + frag_sql(b, k + frag_binds(a).len()),
    decreases a.len(),
{
    if a.len() == 0 {
        assert(a + b =~= b);
        assert(frag_sql(a, k) + frag_sql(b, k) =~= frag_sql(b, k));
    } else {
        assert((a + b).drop_first() =~= a.drop_first() + b);
        assert((a + b)[0] == a[0]);
        match a[0] {
            FragmentView::Sql(t) => {
                lemma_frag_sql_concat(a.drop_first(), b, k);
                assert(t + (frag_sql(a.drop_first(), k) + frag_sql(
                    b,
                    k + frag_binds(a.drop_first()).len(),
                )) =~= (t + frag_sql(a.drop_first(), k)) + frag_sql(
                    b,
                    k + frag_binds(a).len(),
                ));
            },
            FragmentView::Bind(_) => {
                lemma_frag_sql_concat(a.drop_first(), b, (k + 1) as nat);
                assert(frag_binds(a).len() == 1 + frag_binds(a.drop_first()).len());
                assert(placeholder(k + 1) + (frag_sql(a.drop_first(), k + 1) + frag_sql(
                    b,
                    k + 1 + frag_binds(a.drop_first()).len(),
                )) =~= (placeholder(k + 1) + frag_sql(a.drop_first(), k + 1)) + frag_sql(
                    b,
                    k + frag_binds(a).len(),
                ));
            },
        }
    }
}

/// The text and binds of a single-fragment sequence.
pub proof fn lemma_frag_single(fv: FragmentView, k: nat)
    ensures
        frag_sql(seq![fv], k) == (match fv {
            FragmentView::Sql(t) => t,
            FragmentView::Bind(_) => placeholder(k + 1),
        }),
        frag_binds(seq![fv]) == (match fv {
            FragmentView::Sql(_) => Seq::<BindView>::empty(),
            FragmentView::Bind(b) => seq![b],
        }),
{
    let s = seq![fv];
    assert(s[0] == fv);
    assert(s.drop_first() =~= Seq::<FragmentView>::empty());
    assert(frag_sql(Seq::<FragmentView>::empty(), k) == Seq::<char>::empty());
    assert(frag_sql(Seq::<FragmentView>::empty(), (k + 1) as nat) == Seq::<char>::empty());
    assert(frag_binds(Seq::<FragmentView>::empty()) == Seq::<BindView>::empty());
    match fv {
        FragmentView::Sql(t) => {
            assert(t + Seq::<char>::empty() =~= t);
        },
        FragmentView::Bind(b) => {
            assert(placeholder(k + 1) + Seq::<char>::empty() =~= placeholder(k + 1));
            assert(seq![b] + Seq::<BindView>::empty() =~= seq![b]);
        },
    }
}

/// Walk a fragment sequence: emit its sql text, numbering each bind
/// parameter in order of appearance, and collect the bind values.
pub fn walk_fragments(frags: &Vec<Fragment>) -> (r: (String, Vec<Bind>))
    ensures
        r.0@ == frag_sql(frags_view(frags@), 0),
        binds_view(r.1@) == frag_binds(frags_view(frags@)),
{
    let mut text = String::new();
    let mut binds: Vec<Bind> = Vec::new();
    let mut i: usize = 0;
    while i < frags.len()
        invariant
            0 <= i <= frags@.len(),
            binds@.len() <= i,
            text@ == frag_sql(frags_view(frags@.take(i as int)), 0),
            binds_view(binds@) == frag_binds(frags_view(frags@.take(i as int))),
        decreases frags@.len() - i,
    {
        proof {
            assert(frags@.take(i as int + 1).drop_last() =~= frags@.take(i as int));
            assert(frags_view(frags@.take(i as int + 1)) =~= frags_view(frags@.take(i as int))
                + seq![frags@[i as int]@]);
            lemma_frag_sql_concat(
                frags_view(frags@.take(i as int)),
                seq![frags@[i as int]@],
                0,
            );
            lemma_frag_binds_concat(frags_view(frags@.take(i as int)), seq![frags@[i as int]@]);
            lemma_frag_single(frags@[i as int]@, binds@.len());
        }
        let ghost prev_text = text@;
        let ghost prev_binds = binds@;
        let f = &frags[i];
        match f {
            Fragment::Sql(s) => {
                text.append(s.as_str());
                proof {
                    assert(frag_sql(seq![frags@[i as int]@], prev_binds.len()) =~= s@);
                    assert(frag_binds(seq![frags@[i as int]@]) =~= Seq::<BindView>::empty());
                    assert(binds_view(binds@) =~= frag_binds(
                        frags_view(frags@.take(i as int + 1)),
                    ));
                }
            },
            Fragment::Bind(b) => {
                text.append("$");
                let num = u64_dec((binds.len() as u64) + 1);
                text.append(num.as_str());
                binds.push(b.dup());
                proof {
                    assert(frag_sql(seq![frags@[i as int]@], prev_binds.len()) =~= placeholder(
                        prev_binds.len() + 1,
                    ));
                    assert(text@ =~= prev_text + placeholder(prev_binds.len() + 1));
                    assert(frag_binds(seq![frags@[i as int]@]) =~= seq![b@]);
                    assert(binds_view(binds@) =~= binds_view(prev_binds).push(b@));
                    assert(binds_view(binds@) =~= frag_binds(
                        frags_view(frags@.take(i as int + 1)),
                    ));
                }
            },
        }
        i = i + 1;
    }
    proof {
        assert(frags@.take(frags@.len() as int) =~= frags@);
    }
    (text, binds)
}

/// An independent elementwise copy of a fragment vector.
pub fn dup_fragments(v: &Vec<Fragment>) -> (r: Vec<Fragment>)
    ensures
        r@ == v@,
{
    let mut r: Vec<Fragment> = Vec::new();
    let mut i: usize = 0;
    while i < v.len()
        invariant
            0 <= i <= v@.len(),
            r@ == v@.take(i as int),
        decreases v@.len() - i,
    {
        r.push(v[i].dup());
        proof {
            assert(r@ =~= v@.take(i as int + 1));
        }
        i = i + 1;
    }
    proof {
        assert(v@.take(v@.len() as int) =~= v@);
    }
    r
}

/// An independent copy of a shape vector.
pub fn dup_shape(v: &Vec<SqlType>) -> (r: Vec<SqlType>)
    ensures
        r@ == v@,
{
    let mut r: Vec<SqlType> = Vec::new();
    let mut i: usize = 0;
    while i < v.len()
        invariant
            0 <= i <= v@.len(),
            r@ == v@.take(i as int),
        decreases v@.len() - i,
    {
        r.push(v[i]);
        proof {
            assert(r@ =~= v@.take(i as int + 1));
        }
        i = i + 1;
    }
    proof {
        assert(v@.take(v@.len() as int) =~= v@);
    }
    r
}

/// Decide equality of two shape vectors.
pub fn shapes_eq(a: &Vec<SqlType>, b: &Vec<SqlType>) -> (r: bool)
    ensures
        r == (a@ == b@),
{
    if a.len() != b.len() {
        proof {
            assert(a@ != b@);
        }
        return false;
    }
    let mut i: usize = 0;
    while i < a.len()
        invariant
            0 <= i <= a@.len(),
            a@.len() == b@.len(),
            forall|j: int| 0 <= j < i ==> a@[j] == b@[j],
        decreases a@.len() - i,
    {
        if !(a[i] == b[i]) {
            proof {
                assert(a@[i as int] != b@[i as int]);
                assert(a@ != b@);
            }
            return false;
        }
        i = i + 1;
    }
    proof {
        assert(a@ =~= b@);
    }
    true
}

/// The debug rendering of one bind value: integers in decimal, text in
/// double quotes.
pub open spec fn bind_display(b: BindView) -> Seq<char> {
    match b {
        BindView::Int(i) => int_dec(i),
        BindView::Text(s) => quote(s),
    }
}

/// The debug rendering of a bind list: the values, comma separated.
pub open spec fn bind_list(bs: Seq<BindView>) -> Seq<char>
    decreases bs.len(),
{
    if bs.len() == 0 {
        Seq::<char>::empty()
    } else if bs.len() == 1 {
        bind_display(bs[0])
    } else {
        bind_list(bs.drop_last()) + ", "@ + bind_display(bs.last())
    }
}

/// The debug suffix appended after rendered sql text.
pub open spec fn debug_suffix(bs: Seq<BindView>) -> Seq<char> {
    " -- binds: ["@ + bind_list(bs) + "]"@
}

/// Render sql text together with its bind list, in the debug format
/// `<sql> -- binds: [..]`.
pub fn render_debug(sql: &str, binds: &Vec<Bind>) -> (r: String)
    ensures
        r@ == sql@ + debug_suffix(binds_view(binds@)),
{
    let mut out = sql.to_owned();
    out.append(" -- binds: [");
    let mut i: usize = 0;
    while i < binds.len()
        invariant
            0 <= i <= binds@.len(),
            out@ == sql@ + " -- binds: ["@ + bind_list(binds_view(binds@).take(i as int)),
        decreases binds@.len() - i,
    {
        let ghost prev = out@;
        if i > 0 {
            out.append(", ");
        }
        let b = &binds[i];
        match b {
            Bind::Int(n) => {
                let d = i64_dec(*n);
                out.append(d.as_str());
            },
            Bind::Text(s) => {
                out.append("\"");
                out.append(s.as_str());
                out.append("\"");
            },
        }
        proof {
            let bv = binds_view(binds@);
            assert(bv.take(i as int + 1).drop_last() =~= bv.take(i as int));
            assert(bv.take(i as int + 1).last() == binds@[i as int]@);
            if i == 0 {
                assert(out@ =~= prev + bind_display(binds@[i as int]@));
                assert(bind_list(bv.take(1)) == bind_display(bv[0]));
            } else {
                assert(out@ =~= prev + ", "@ + bind_display(binds@[i as int]@));
            }
            assert(out@ =~= sql@ + " -- binds: ["@ + bind_list(bv.take(i as int + 1)));
        }
        i = i + 1;
    }
    out.append("]");
    proof {
        assert(binds_view(binds@).take(binds@.len() as int) =~= binds_view(binds@));
        assert(out@ =~= sql@ + debug_suffix(binds_view(binds@)));
    }
    out
}

} // verus!
