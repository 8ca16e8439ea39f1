use vstd::prelude::*;

verus! {

/// Increment of the generator's state per draw.
pub const GOLDEN_GAMMA: u64 = 0x9E37_79B9_7F4A_7C15;

/// How many mutation operators there are to pick from.
pub const OPERATOR_COUNT: u64 = 6;

/// Largest number of stacked operators applied to one candidate.
pub const MAX_STACK: u64 = 8;

/// The state after one draw.
pub open spec fn advance(s: u64) -> u64 {
    s.wrapping_add(GOLDEN_GAMMA)
}

/// The value drawn from state `s` (its successor, finalised).
pub open spec fn draw(s: u64) -> u64 {
    let z = advance(s);
    let z1 = (z ^ (z >> 30u64)).wrapping_mul(0xBF58_476D_1CE4_E5B9);
    let z2 = (z1 ^ (z1 >> 27u64)).wrapping_mul(0x94D0_49BB_1331_11EB);
    z2 ^ (z2 >> 31u64)
}

/// A seeded pseudo-random stream; every value it yields is a function of
/// the seed and of the number of earlier draws.
pub struct Rng {
    pub state: u64,
}

impl Rng {
    pub fn new(seed: u64) -> (r: Rng)
        ensures
            r.state == seed,
    {
        Rng { state: seed }
    }

    pub fn next_u64(&mut self) -> (r: u64)
        ensures
            r == draw(old(self).state),
            final(self).state == advance(old(self).state),
    {
        let z = self.state.wrapping_add(GOLDEN_GAMMA);
        self.state = z;
        let z1 = (z ^ (z >> 30u64)).wrapping_mul(0xBF58_476D_1CE4_E5B9);
        let z2 = (z1 ^ (z1 >> 27u64)).wrapping_mul(0x94D0_49BB_1331_11EB);
        z2 ^ (z2 >> 31u64)
    }
}

/// `d` with bit `bit` of byte `pos` inverted.
pub open spec fn flip_bit(d: Seq<u8>, pos: int, bit: u8) -> Seq<u8> {
    d.update(pos, d[pos] ^ (1u8 << bit))
}

/// `d` with `b` inserted before position `pos`.
pub open spec fn insert_byte(d: Seq<u8>, pos: int, b: u8) -> Seq<u8> {
    d.take(pos) + seq![b] + d.skip(pos)
}

/// `d` without the `n` bytes that start at `pos`.
pub open spec fn delete_block(d: Seq<u8>, pos: int, n: int) -> Seq<u8> {
    d.take(pos) + d.skip(pos + n)
}

/// `d` with byte `pos` moved by `delta - 16`, wrapping.
pub open spec fn nudge_byte(d: Seq<u8>, pos: int, delta: u8) -> Seq<u8> {
    d.update(pos, d[pos].wrapping_add(delta).wrapping_sub(16u8))
}

/// The little-endian 16-bit integer at `pos`.
pub open spec fn le16(d: Seq<u8>, pos: int) -> u16 {
    (d[pos] as int + d[pos + 1] as int * 256) as u16
}

/// The little-endian 32-bit integer at `pos`.
pub open spec fn le32(d: Seq<u8>, pos: int) -> u32 {
    (d[pos] as int + d[pos + 1] as int * 256 + d[pos + 2] as int * 65536 + d[pos + 3] as int * 16777216) as u32
}

/// `d` with the little-endian 16-bit integer at `pos` moved by `delta - 16`,
/// wrapping.
pub open spec fn nudge_le16(d: Seq<u8>, pos: int, delta: u8) -> Seq<u8> {
    let v = le16(d, pos).wrapping_add(delta as u16).wrapping_sub(16u16);
    d.update(pos, (v % 256) as u8).update(pos + 1, (v / 256) as u8)
}

/// `d` with the little-endian 32-bit integer at `pos` moved by `delta - 16`,
/// wrapping.
pub open spec fn nudge_le32(d: Seq<u8>, pos: int, delta: u8) -> Seq<u8> {
    let v = le32(d, pos).wrapping_add(delta as u32).wrapping_sub(16u32);
    d.update(pos, (v % 256) as u8).update(pos + 1, (v / 256 % 256) as u8).update(
        pos + 2,
        (v / 65536 % 256) as u8,
    ).update(pos + 3, (v / 16777216) as u8)
}

/// An arithmetic nudge at `pos` on a window of 4 bytes (`width` 2), 2 bytes
/// (`width` 1) or 1 byte, narrowed to one byte where the wider window does
/// not fit.
pub open spec fn nudge_window(d: Seq<u8>, pos: int, width: u64, delta: u8) -> Seq<u8> {
    if width == 2 && pos + 4 <= d.len() {
        nudge_le32(d, pos, delta)
    } else if width == 1 && pos + 2 <= d.len() {
        nudge_le16(d, pos, delta)
    } else {
        nudge_byte(d, pos, delta)
    }
}

/// The first `cut_a` bytes of `a` followed by `b` from `cut_b` on.
pub open spec fn splice(a: Seq<u8>, b: Seq<u8>, cut_a: int, cut_b: int) -> Seq<u8> {
    a.take(cut_a) + b.skip(cut_b)
}

/// `d` with `tok` written over it from `pos`, cut at the end of `d`.
pub open spec fn overwrite(d: Seq<u8>, pos: int, tok: Seq<u8>) -> Seq<u8> {
    let k = if tok.len() <= d.len() - pos { tok.len() as int } else { d.len() - pos };
    d.take(pos) + tok.take(k) + d.skip(pos + k)
}

/// One mutation operator applied to `d`, chosen and placed by the four
/// values drawn from `s`; `other` is the splice partner and `dict` the token
/// dictionary. An operator that does not apply leaves `d` as it is.
#[verifier::opaque]
pub open spec fn apply_operator(
    s: u64,
    d: Seq<u8>,
    other: Seq<u8>,
    dict: Seq<Seq<u8>>,
    max_len: nat,
) -> Seq<u8> {
    let r1 = draw(s);
    let r2 = draw(advance(s));
    let r3 = draw(advance(advance(s)));
    let r4 = draw(advance(advance(advance(s))));
    let op = r1 % OPERATOR_COUNT;
    let len = d.len() as int;
    if op == 0 && len > 0 {
        flip_bit(d, (r2 % (len as u64)) as int, (r3 % 8) as u8)
    } else if op == 1 && len < max_len {
        insert_byte(d, (r2 as int) % (len + 1), (r3 % 256) as u8)
    } else if op == 2 && len > 0 {
        let pos = (r2 % (len as u64)) as int;
        delete_block(d, pos, 1 + (r3 % ((len - pos) as u64)) as int)
    } else if op == 3 && len > 0 {
        nudge_window(d, (r2 % (len as u64)) as int, r4 % 3, (r3 % 33) as u8)
    } else if op == 4 && other.len() > 0 {
        let cut_a = if len == 0 { 0 } else { (r2 % (len as u64)) as int };
        let cut_b = (r3 % (other.len() as u64)) as int;
        if cut_a + other.len() - cut_b <= max_len as int {
            splice(d, other, cut_a, cut_b)
        } else {
            d
        }
    } else if op == 5 && len > 0 && dict.len() > 0 {
        overwrite(d, (r3 % (len as u64)) as int, dict[(r2 % (dict.len() as u64)) as int])
    } else {
        d
    }
}

/// The generator state after one operator: each operator takes four draws.
pub open spec fn after_operator(s: u64) -> u64 {
    advance(advance(advance(advance(s))))
}

/// `n` operators stacked on `d`, starting from state `s`: the candidate and
/// the state that is left.
pub open spec fn stack_operators(
    s: u64,
    d: Seq<u8>,
    other: Seq<u8>,
    dict: Seq<Seq<u8>>,
    max_len: nat,
    n: nat,
) -> (Seq<u8>, u64)
    decreases n,
{
    if n == 0 {
        (d, s)
    } else {
        let (prev, s1) = stack_operators(s, d, other, dict, max_len, (n - 1) as nat);
        (apply_operator(s1, prev, other, dict, max_len), after_operator(s1))
    }
}

/// A full mutation of `d` from state `s`: one draw picks how many operators
/// (one to `MAX_STACK`) are stacked.
pub open spec fn mutation(
    s: u64,
    d: Seq<u8>,
    other: Seq<u8>,
    dict: Seq<Seq<u8>>,
    max_len: nat,
) -> (Seq<u8>, u64) {
    let n = 1 + draw(s) % MAX_STACK;
    stack_operators(advance(s), d, other, dict, max_len, n as nat)
}

pub open spec fn dict_view(dict: Seq<Vec<u8>>) -> Seq<Seq<u8>> {
    dict.map_values(|t: Vec<u8>| t@)
}

/// The bytes `src[from..to]` in a new vector.
pub fn copy_range(src: &Vec<u8>, from: usize, to: usize) -> (r: Vec<u8>)
    requires
        from <= to <= src@.len(),
    ensures
        r@ == src@.subrange(from as int, to as int),
{
    let mut r: Vec<u8> = Vec::new();
    let mut i: usize = from;
    while i < to
        invariant
            from <= i <= to <= src@.len(),
            r@ == src@.subrange(from as int, i as int),
        decreases to - i,
    {
        r.push(src[i]);
        assert(r@ =~= src@.subrange(from as int, i + 1));
        i = i + 1;
    }
    r
}

/// Appends `src[from..to]` to `dst`.
pub fn append_range(dst: &mut Vec<u8>, src: &Vec<u8>, from: usize, to: usize)
    requires
        from <= to <= src@.len(),
    ensures
        final(dst)@ == old(dst)@ + src@.subrange(from as int, to as int),
{
    let ghost start = dst@;
    let mut i: usize = from;
    while i < to
        invariant
            from <= i <= to <= src@.len(),
            dst@ == start + src@.subrange(from as int, i as int),
        decreases to - i,
    {
        dst.push(src[i]);
        assert(dst@ =~= start + src@.subrange(from as int, i + 1));
        i = i + 1;
    }
}

/// Applies `nudge_window` to a copy of `d`.
pub fn nudge(d: &Vec<u8>, pos: usize, width: u64, delta: u8) -> (r: Vec<u8>)
    requires
        pos < d@.len(),
    ensures
        r@ == nudge_window(d@, pos as int, width, delta),
{
    let len = d.len();
    let mut out = copy_range(d, 0, len);
    assert(out@ =~= d@);
    if width == 2 && len - pos >= 4 {
        let x = (d[pos] as u32) + (d[pos + 1] as u32) * 256 + (d[pos + 2] as u32) * 65536 + (d[pos + 3] as u32)
            * 16777216;
        assert(x == le32(d@, pos as int));
        let v = x.wrapping_add(delta as u32).wrapping_sub(16u32);
        out.set(pos, (v % 256) as u8);
        out.set(pos + 1, (v / 256 % 256) as u8);
        out.set(pos + 2, (v / 65536 % 256) as u8);
        out.set(pos + 3, (v / 16777216) as u8);
    } else if width == 1 && len - pos >= 2 {
        let x = (d[pos] as u16) + (d[pos + 1] as u16) * 256;
        assert(x == le16(d@, pos as int));
        let v = x.wrapping_add(delta as u16).wrapping_sub(16u16);
        out.set(pos, (v % 256) as u8);
        out.set(pos + 1, (v / 256) as u8);
    } else {
        let v = d[pos].wrapping_add(delta).wrapping_sub(16u8);
        out.set(pos, v);
    }
    out
}

/// Applies one operator to `d`, drawing four values from `rng`.
pub fn mutate_once(
    rng: &mut Rng,
    d: &Vec<u8>,
    other: &Vec<u8>,
    dict: &Vec<Vec<u8>>,
    max_len: usize,
) -> (r: Vec<u8>)
    ensures
        r@ == apply_operator(old(rng).state, d@, other@, dict_view(dict@), max_len as nat),
        final(rng).state == after_operator(old(rng).state),
{
    proof {
        reveal(apply_operator);
    }
    let r1 = rng.next_u64();
    let r2 = rng.next_u64();
    let r3 = rng.next_u64();
    let r4 = rng.next_u64();
    let op = r1 % OPERATOR_COUNT;
    let len = d.len();
    let ghost dv = dict_view(dict@);
    if op == 0 && len > 0 {
        let pos = (r2 % (len as u64)) as usize;
        let bit = (r3 % 8) as u8;
        let mut out = copy_range(d, 0, len);
        assert(out@ =~= d@);
        let v = d[pos] ^ (1u8 << bit);
        out.set(pos, v);
        out
    } else if op == 1 && len < max_len {
        let pos = (r2 % (len as u64 + 1)) as usize;
        let b = (r3 % 256) as u8;
        let mut out = copy_range(d, 0, pos);
        out.push(b);
        append_range(&mut out, d, pos, len);
        assert(out@ =~= insert_byte(d@, pos as int, b));
        out
    } else if op == 2 && len > 0 {
        let pos = (r2 % (len as u64)) as usize;
        let n = 1 + (r3 % ((len - pos) as u64)) as usize;
        let mut out = copy_range(d, 0, pos);
        append_range(&mut out, d, pos + n, len);
        assert(out@ =~= delete_block(d@, pos as int, n as int));
        out
    } else if op == 3 && len > 0 {
        let pos = (r2 % (len as u64)) as usize;
        nudge(d, pos, r4 % 3, (r3 % 33) as u8)
    } else if op == 4 && other.len() > 0 {
        let cut_a: usize = if len == 0 { 0 } else { (r2 % (len as u64)) as usize };
        let cut_b = (r3 % (other.len() as u64)) as usize;
        if cut_a <= max_len && other.len() - cut_b <= max_len - cut_a {
            let mut out = copy_range(d, 0, cut_a);
            append_range(&mut out, other, cut_b, other.len());
            assert(out@ =~= splice(d@, other@, cut_a as int, cut_b as int));
            out
        } else {
            copy_range(d, 0, len)
        }
    } else if op == 5 && len > 0 && dict.len() > 0 {
        let tok = &dict[(r2 % (dict.len() as u64)) as usize];
        assert(tok@ == dv[(r2 % (dict@.len() as u64)) as int]);
        let pos = (r3 % (len as u64)) as usize;
        let k: usize = if tok.len() <= len - pos { tok.len() } else { len - pos };
        let mut out = copy_range(d, 0, pos);
        append_range(&mut out, tok, 0, k);
        append_range(&mut out, d, pos + k, len);
        assert(out@ =~= overwrite(d@, pos as int, tok@));
        out
    } else {
        copy_range(d, 0, len)
    }
}

/// A new candidate from `d`: a drawn number (one to `MAX_STACK`) of
/// operators, stacked. The result and the generator's next state depend on
/// the generator's state and the arguments alone.
pub fn mutate(
    rng: &mut Rng,
    d: &Vec<u8>,
    other: &Vec<u8>,
    dict: &Vec<Vec<u8>>,
    max_len: usize,
) -> (r: Vec<u8>)
    ensures
        (r@, final(rng).state) == mutation(old(rng).state, d@, other@, dict_view(dict@), max_len as nat),
{
    let ghost s0 = rng.state;
    let n = 1 + rng.next_u64() % MAX_STACK;
    let ghost s1 = rng.state;
    let mut cur = copy_range(d, 0, d.len());
    assert(cur@ =~= d@);
    let mut i: u64 = 0;
    while i < n
        invariant
            i <= n,
            n == 1 + draw(s0) % MAX_STACK,
            s1 == advance(s0),
            (cur@, rng.state) == stack_operators(s1, d@, other@, dict_view(dict@), max_len as nat, i as nat),
        decreases n - i,
    {
        cur = mutate_once(rng, &cur, other, dict, max_len);
        i = i + 1;
    }
    cur
}

/// The first `n` candidates mutated from a fixed pool, starting from state
/// `s`: each takes its base and splice partner by two draws, then is mutated.
pub open spec fn candidate_run(
    s: u64,
    pool: Seq<Seq<u8>>,
    dict: Seq<Seq<u8>>,
    max_len: nat,
    n: nat,
) -> (Seq<Seq<u8>>, u64)
    decreases n,
{
    if n == 0 {
        (Seq::empty(), s)
    } else {
        let (prev, s1) = candidate_run(s, pool, dict, max_len, (n - 1) as nat);
        let b = draw(s1) as int % pool.len() as int;
        let o = draw(advance(s1)) as int % pool.len() as int;
        let (c, s2) = mutation(advance(advance(s1)), pool[b], pool[o], dict, max_len);
        (prev.push(c), s2)
    }
}

/// `count` candidates mutated from `pool` with a generator seeded by `seed`.
pub fn generate(seed: u64, pool: &Vec<Vec<u8>>, dict: &Vec<Vec<u8>>, max_len: usize, count: usize) -> (r: Vec<Vec<u8>>)
    requires
        pool@.len() > 0,
    ensures
        dict_view(r@) == candidate_run(seed, dict_view(pool@), dict_view(dict@), max_len as nat, count as nat).0,
{
    let mut rng = Rng::new(seed);
    let mut out: Vec<Vec<u8>> = Vec::new();
    let ghost pv = dict_view(pool@);
    let mut i: usize = 0;
    while i < count
        invariant
            i <= count,
            pool@.len() > 0,
            pv == dict_view(pool@),
            (dict_view(out@), rng.state) == candidate_run(seed, pv, dict_view(dict@), max_len as nat, i as nat),
        decreases count - i,
    {
        let len = pool.len() as u64;
        let b = (rng.next_u64() % len) as usize;
        let o = (rng.next_u64() % len) as usize;
        let c = mutate(&mut rng, &pool[b], &pool[o], dict, max_len);
        let ghost before = out@;
        out.push(c);
        assert(dict_view(out@) =~= dict_view(before).push(c@));
        i = i + 1;
    }
    out
}

/// The first `k` candidates of a longer run are the run of `k`.
pub proof fn lemma_candidate_prefix(s: u64, pool: Seq<Seq<u8>>, dict: Seq<Seq<u8>>, max_len: nat, k: nat, n: nat)
    requires
        k <= n,
    ensures
        candidate_run(s, pool, dict, max_len, k).0 == candidate_run(s, pool, dict, max_len, n).0.take(k as int),
    decreases n,
{
    let full = candidate_run(s, pool, dict, max_len, n).0;
    if k == n {
        assert(full.take(n as int) =~= full) by {
            lemma_candidate_len(s, pool, dict, max_len, n);
        }
    } else {
        lemma_candidate_prefix(s, pool, dict, max_len, k, (n - 1) as nat);
        let prev = candidate_run(s, pool, dict, max_len, (n - 1) as nat).0;
        lemma_candidate_len(s, pool, dict, max_len, (n - 1) as nat);
        assert(full.take((n - 1) as int) =~= prev);
        assert(prev.take(k as int) =~= full.take(k as int));
    }
}

pub proof fn lemma_candidate_len(s: u64, pool: Seq<Seq<u8>>, dict: Seq<Seq<u8>>, max_len: nat, n: nat)
    ensures
        candidate_run(s, pool, dict, max_len, n).0.len() == n,
    decreases n,
{
    if n > 0 {
        lemma_candidate_len(s, pool, dict, max_len, (n - 1) as nat);
    }
}

/// The same seed and the same pool give the same candidates, in the same
/// order, and a longer run begins with a shorter one: a session can be
/// replayed from its seed.
pub proof fn lemma_mutation_deterministic(
    seed_a: u64,
    seed_b: u64,
    pool_a: Seq<Seq<u8>>,
    pool_b: Seq<Seq<u8>>,
    dict: Seq<Seq<u8>>,
    max_len: nat,
    k: nat,
    n: nat,
)
    requires
        seed_a == seed_b,
        pool_a == pool_b,
        k <= n,
    ensures
        candidate_run(seed_a, pool_a, dict, max_len, n) == candidate_run(seed_b, pool_b, dict, max_len, n),
        candidate_run(seed_a, pool_a, dict, max_len, k).0 == candidate_run(seed_b, pool_b, dict, max_len, n).0.take(k as int),
{
    lemma_candidate_prefix(seed_a, pool_a, dict, max_len, k, n);
}

} // verus!
