use vstd::prelude::*;

verus! {

pub open spec fn be32(n: nat) -> Seq<u8> {
    seq![(n / 16777216 % 256) as u8, (n / 65536 % 256) as u8, (n / 256 % 256) as u8, (n % 256) as u8]
}

pub open spec fn be32_value(b: Seq<u8>) -> nat {
    (b[0] as nat) * 16777216 + (b[1] as nat) * 65536 + (b[2] as nat) * 256 + (b[3] as nat)
}

/// A field as stored: its length in four big-endian bytes, then its bytes.
pub open spec fn frame(f: Seq<u8>) -> Seq<u8> {
    be32(f.len()) + f
}

/// Fields stored one after another.
pub open spec fn join(fs: Seq<Seq<u8>>) -> Seq<u8>
    decreases fs.len(),
{
    if fs.len() == 0 {
        Seq::empty()
    } else {
        frame(fs[0]) + join(fs.drop_first())
    }
}

/// Every field's length fits in four bytes.
pub open spec fn fits(fs: Seq<Seq<u8>>) -> bool {
    forall|i: int| 0 <= i < fs.len() ==> #[trigger] fs[i].len() < 4294967296
}

pub open spec fn views(v: Seq<Vec<u8>>) -> Seq<Seq<u8>> {
    v.map_values(|x: Vec<u8>| x@)
}

proof fn lemma_be32(n: nat)
    requires
        n < 4294967296,
    ensures
        be32_value(be32(n)) == n,
        be32(n).len() == 4,
{
    let b = be32(n);
    assert(b[0] as nat == n / 16777216 % 256);
    assert(b[1] as nat == n / 65536 % 256);
    assert(b[2] as nat == n / 256 % 256);
    assert(b[3] as nat == n % 256);
    assert((n / 16777216 % 256) * 16777216 + (n / 65536 % 256) * 65536 + (n / 256 % 256) * 256 + n
        % 256 == n) by (nonlinear_arith)
        requires
            n < 4294967296,
    ;
}

proof fn lemma_join_push(fs: Seq<Seq<u8>>, f: Seq<u8>)
    ensures
        join(fs.push(f)) == join(fs) + frame(f),
    decreases fs.len(),
{
    if fs.len() == 0 {
        assert(fs.push(f).drop_first() == Seq::<Seq<u8>>::empty());
        assert(fs.push(f)[0] == f);
        assert(join(fs.push(f).drop_first()) == Seq::<u8>::empty());
        assert(join(fs.push(f)) =~= join(fs) + frame(f));
    } else {
        assert(fs.push(f).drop_first() == fs.drop_first().push(f));
        lemma_join_push(fs.drop_first(), f);
        assert(fs.push(f)[0] == fs[0]);
        assert(join(fs.push(f)) =~= join(fs) + frame(f));
    }
}

proof fn lemma_join_skip(fs: Seq<Seq<u8>>, k: int)
    requires
        0 <= k < fs.len(),
    ensures
        join(fs.skip(k)) == frame(fs[k]) + join(fs.skip(k + 1)),
{
    assert(fs.skip(k).drop_first() == fs.skip(k + 1));
}

/// Stores fields one after another, each behind its length.
pub fn join_fields(fs: &Vec<Vec<u8>>) -> (r: Vec<u8>)
    requires
        fits(views(fs@)),
        join(views(fs@)).len() <= usize::MAX,
    ensures
        r@ == join(views(fs@)),
{
    let ghost vs = views(fs@);
    let mut r: Vec<u8> = Vec::new();
    let mut k: usize = 0;
    while k < fs.len()
        invariant
            vs == views(fs@),
            fits(vs),
            join(vs).len() <= usize::MAX,
            0 <= k <= fs@.len(),
            r@ == join(vs.take(k as int)),
        decreases fs@.len() - k,
    {
        let f = &fs[k];
        proof {
            assert(vs[k as int] == f@);
            assert(f@.len() < 4294967296);
            lemma_join_push(vs.take(k as int), f@);
            assert(vs.take(k + 1) == vs.take(k as int).push(f@));
            lemma_prefix_len(vs, k + 1);
        }
        let n = f.len();
        r.push(((n / 16777216) % 256) as u8);
        r.push(((n / 65536) % 256) as u8);
        r.push(((n / 256) % 256) as u8);
        r.push((n % 256) as u8);
        let mut j: usize = 0;
        while j < n
            invariant
                n == f@.len(),
                0 <= j <= n,
                r@ == join(vs.take(k as int)) + be32(n as nat) + f@.subrange(0, j as int),
            decreases n - j,
        {
            r.push(f[j]);
            assert(f@.subrange(0, j + 1) == f@.subrange(0, j as int).push(f@[j as int]));
            j = j + 1;
        }
        assert(f@.subrange(0, n as int) == f@);
        k = k + 1;
    }
    assert(vs.take(fs@.len() as int) == vs);
    r
}

proof fn lemma_prefix_len(fs: Seq<Seq<u8>>, k: int)
    requires
        0 <= k <= fs.len(),
    ensures
        join(fs.take(k)).len() <= join(fs).len(),
    decreases fs.len() - k,
{
    if k < fs.len() {
        lemma_prefix_len(fs, k + 1);
        lemma_join_push(fs.take(k), fs[k]);
        assert(fs.take(k + 1) == fs.take(k).push(fs[k]));
    } else {
        assert(fs.take(k) == fs);
    }
}

proof fn lemma_join_empty(fs: Seq<Seq<u8>>)
    ensures
        (join(fs).len() == 0) == (fs.len() == 0),
{
    if fs.len() > 0 {
        assert(join(fs).len() >= 4);
    }
}

proof fn lemma_fits_push(fs: Seq<Seq<u8>>, f: Seq<u8>)
    requires
        fits(fs),
        f.len() < 4294967296,
    ensures
        fits(fs.push(f)),
{
    assert forall|i: int| 0 <= i < fs.push(f).len() implies #[trigger] fs.push(f)[i].len() < 4294967296 by {
        if i < fs.len() {
            assert(fs.push(f)[i] == fs[i]);
        }
    }
}

/// Reads back the fields of `join`. Whenever `b` is the storage of some
/// fields, those fields come back.
#[verifier::rlimit(40)]
pub fn split_fields(b: &Vec<u8>) -> (r: Option<Vec<Vec<u8>>>)
    ensures
        r matches Some(out) ==> join(views(out@)) == b@ && fits(views(out@)),
        forall|fs: Seq<Seq<u8>>| #[trigger] join(fs) == b@ && fits(fs) ==> (r matches Some(out) && views(out@) == fs),
{
    let mut out: Vec<Vec<u8>> = Vec::new();
    let mut pos: usize = 0;
    let len = b.len();
    proof {
        assert(b@.subrange(0, len as int) =~= b@);
        assert(views(out@) =~= Seq::<Seq<u8>>::empty());
        assert(join(views(out@)) =~= b@.subrange(0, 0));
        assert forall|fs: Seq<Seq<u8>>| #[trigger] join(fs) == b@ && fits(fs) implies {
            &&& views(out@) == fs.take(0)
            &&& b@.subrange(0, len as int) == join(fs.skip(0))
        } by {
            assert(fs.take(0) =~= Seq::<Seq<u8>>::empty());
            assert(fs.skip(0) =~= fs);
        }
    }
    while pos < len
        invariant
            len == b@.len(),
            0 <= pos <= len,
            join(views(out@)) == b@.subrange(0, pos as int),
            fits(views(out@)),
            forall|fs: Seq<Seq<u8>>| #[trigger] join(fs) == b@ && fits(fs) ==> {
                &&& out@.len() <= fs.len()
                &&& views(out@) == fs.take(out@.len() as int)
                &&& b@.subrange(pos as int, len as int) == join(fs.skip(out@.len() as int))
            },
        decreases len - pos,
    {
        if len - pos < 4 {
            proof {
                assert forall|fs: Seq<Seq<u8>>| #[trigger] join(fs) == b@ && fits(fs) implies false by {
                    let k = out@.len() as int;
                    lemma_join_empty(fs.skip(k));
                    if k < fs.len() {
                        lemma_join_skip(fs, k);
                    }
                }
            }
            return None;
        }
        let n: usize = (b[pos] as usize) * 16777216 + (b[pos + 1] as usize) * 65536 + (b[pos + 2] as usize) * 256
            + (b[pos + 3] as usize);
        assert(n == be32_value(b@.subrange(pos as int, pos + 4)));
        if n > len - pos - 4 {
            proof {
                assert forall|fs: Seq<Seq<u8>>| #[trigger] join(fs) == b@ && fits(fs) implies false by {
                    let k = out@.len() as int;
                    lemma_join_empty(fs.skip(k));
                    lemma_join_skip(fs, k);
                    lemma_be32(fs[k].len());
                    assert(b@.subrange(pos as int, pos + 4) == be32(fs[k].len()));
                }
            }
            return None;
        }
        let ghost before = out@;
        let mut f: Vec<u8> = Vec::new();
        let mut j: usize = 0;
        while j < n
            invariant
                len == b@.len(),
                pos + 4 + n <= len,
                0 <= j <= n,
                f@ == b@.subrange(pos + 4, pos + 4 + j),
            decreases n - j,
        {
            f.push(b[pos + 4 + j]);
            assert(b@.subrange(pos + 4, pos + 4 + j + 1) == b@.subrange(pos + 4, pos + 4 + j).push(
                b@[pos + 4 + j],
            ));
            j = j + 1;
        }
        proof {
            assert(n < 4294967296);
            lemma_be32(n as nat);
            assert(b@.subrange(pos as int, pos + 4) =~= be32(n as nat)) by {
                let q = b@.subrange(pos as int, pos + 4);
                assert(q[0] as nat * 16777216 + q[1] as nat * 65536 + q[2] as nat * 256 + q[3] as nat == n);
                assert(q[0] as nat == n / 16777216 % 256) by (nonlinear_arith)
                    requires q[0] as nat * 16777216 + q[1] as nat * 65536 + q[2] as nat * 256 + q[3] as nat == n,
                        q[0] < 256, q[1] < 256, q[2] < 256, q[3] < 256;
                assert(q[1] as nat == n / 65536 % 256) by (nonlinear_arith)
                    requires q[0] as nat * 16777216 + q[1] as nat * 65536 + q[2] as nat * 256 + q[3] as nat == n,
                        q[0] < 256, q[1] < 256, q[2] < 256, q[3] < 256;
                assert(q[2] as nat == n / 256 % 256) by (nonlinear_arith)
                    requires q[0] as nat * 16777216 + q[1] as nat * 65536 + q[2] as nat * 256 + q[3] as nat == n,
                        q[0] < 256, q[1] < 256, q[2] < 256, q[3] < 256;
                assert(q[3] as nat == n % 256) by (nonlinear_arith)
                    requires q[0] as nat * 16777216 + q[1] as nat * 65536 + q[2] as nat * 256 + q[3] as nat == n,
                        q[0] < 256, q[1] < 256, q[2] < 256, q[3] < 256;
            }
            assert(b@.subrange(pos as int, pos + 4 + n) =~= frame(f@));
            assert(views(before.push(f)) =~= views(before).push(f@));
            lemma_fits_push(views(before), f@);
            lemma_join_push(views(before), f@);
            assert(b@.subrange(0, pos + 4 + n) =~= b@.subrange(0, pos as int) + b@.subrange(pos as int, pos + 4 + n));
            assert forall|fs: Seq<Seq<u8>>| #[trigger] join(fs) == b@ && fits(fs) implies {
                &&& before.len() + 1 <= fs.len()
                &&& views(before.push(f)) == fs.take(before.len() as int + 1)
                &&& b@.subrange(pos + 4 + n, len as int) == join(fs.skip(before.len() as int + 1))
            } by {
                let k = before.len() as int;
                lemma_join_empty(fs.skip(k));
                lemma_join_skip(fs, k);
                lemma_be32(fs[k].len());
                let rest = b@.subrange(pos as int, len as int);
                assert(rest.subrange(0, 4) =~= be32(fs[k].len()));
                assert(b@.subrange(pos as int, pos + 4) =~= rest.subrange(0, 4));
                assert(fs[k].len() == n);
                assert(fs[k] =~= rest.subrange(4, 4 + n as int));
                assert(f@ =~= fs[k]);
                assert(fs.take(k + 1) =~= fs.take(k).push(fs[k]));
                assert(b@.subrange(pos + 4 + n, len as int) =~= rest.subrange(4 + n as int, rest.len() as int));
            }
        }
        out.push(f);
        pos = pos + 4 + n;
    }
    proof {
        assert(b@.subrange(0, len as int) =~= b@);
        assert forall|fs: Seq<Seq<u8>>| #[trigger] join(fs) == b@ && fits(fs) implies views(out@) == fs by {
            let k = out@.len() as int;
            lemma_join_empty(fs.skip(k));
            assert(fs.skip(k).len() == 0);
            assert(fs.take(k) =~= fs);
        }
    }
    Some(out)
}

/// The size of the storage of `fs`, when every field fits behind its length
/// and the whole fits in memory.
pub fn join_size(fs: &Vec<Vec<u8>>) -> (r: Option<usize>)
    ensures
        match r {
            Some(n) => fits(views(fs@)) && n == join(views(fs@)).len(),
            None => !fits(views(fs@)) || join(views(fs@)).len() > usize::MAX,
        },
{
    let ghost vs = views(fs@);
    let mut total: usize = 0;
    let mut k: usize = 0;
    while k < fs.len()
        invariant
            vs == views(fs@),
            0 <= k <= fs@.len(),
            fits(vs.take(k as int)),
            total == join(vs.take(k as int)).len(),
        decreases fs@.len() - k,
    {
        let f = &fs[k];
        proof {
            assert(vs[k as int] == f@);
            lemma_join_push(vs.take(k as int), f@);
            assert(vs.take(k + 1) == vs.take(k as int).push(f@));
            lemma_prefix_len(vs, k + 1);
        }
        if f.len() > 4294967295 {
            assert(!fits(vs));
            return None;
        }
        if total > usize::MAX - 4 || f.len() > usize::MAX - 4 - total {
            proof {
                lemma_prefix_len(vs, k + 1);
                if fits(vs) {
                    assert(join(vs.take(k + 1)).len() > usize::MAX);
                }
            }
            return None;
        }
        total = total + 4 + f.len();
        k = k + 1;
        assert(fits(vs.take(k as int))) by {
            assert forall|i: int| 0 <= i < k implies #[trigger] vs.take(k as int)[i].len() < 4294967296 by {
                if i < k - 1 {
                    assert(vs.take(k as int)[i] == vs.take(k - 1)[i]);
                }
            }
        }
    }
    assert(vs.take(fs@.len() as int) == vs);
    Some(total)
}

} // verus!
