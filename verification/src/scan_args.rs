//! Typed reads of a method's arguments.
//!
//! A method registered for any arity reads its call frame into a
//! declared shape:
//!
//! ```text
//! def example(a, b, c=nil, d=nil, *rest, e, f, g:, h: nil, **kwargs, &block)
//!             \__/  \__________/  \___/  \__/  \___________________/  \____/
//!           required  optional    splat trailing      keywords          block
//! ```
//!
//! `scan_args` checks the positionals a call passed against the shape and
//! parts them into the required, optional, splat and trailing groups;
//! `get_kwargs` takes a keyword bucket apart by name.

use vstd::prelude::*;

verus! {

/// The parts `scan_args` hands back, each typed by the parameter that
/// declared it.
pub struct Args<Req, Opt, Splat, Trail, Kw, Block> {
    /// Required positionals.
    pub required: Req,
    /// Optional positionals, `None` for each the call omitted.
    pub optional: Opt,
    /// The positionals between the optional and the trailing ones.
    pub splat: Splat,
    /// Required positionals after the splat.
    pub trailing: Trail,
    /// The keyword bucket.
    pub keywords: Kw,
    /// The block.
    pub block: Block,
}

/// The parts `get_kwargs` hands back, each typed by the parameter that
/// declared it.
pub struct KwArgs<Req, Opt, Splat> {
    /// Values of the required keywords.
    pub required: Req,
    /// Values of the optional keywords, `None` for each the hash lacks.
    pub optional: Opt,
    /// The keywords neither list names.
    pub splat: Splat,
}

/// The positional shape a read declares: how many required, how many
/// optional, whether a splat takes the rest, and how many trailing
/// required positionals follow it.
#[derive(Copy, Clone, Debug, PartialEq, Eq, Structural)]
pub struct ArgShape {
    /// Required positionals before the optional ones.
    pub required: usize,
    /// Optional positionals.
    pub optional: usize,
    /// Whether a splat takes the positionals between the optional and
    /// the trailing ones, leaving the count unbounded.
    pub splat: bool,
    /// Required positionals after the splat.
    pub trailing: usize,
    /// How the read takes the call's block.
    pub block: BlockRead,
}

/// How a read takes the call's block: not at all, as a block the call
/// must pass, or as one it may pass.
#[derive(Copy, Clone, Debug, PartialEq, Eq, Structural)]
pub enum BlockRead {
    /// The block is not read.
    Ignored,
    /// The call must pass a block.
    Required,
    /// The call may pass a block.
    Optional,
}

/// Why `scan_args` refuses a call: a positional count the shape does not
/// accept, or a block the shape requires and the call did not pass.
#[derive(Copy, Clone, Debug, PartialEq, Eq, Structural)]
pub enum ScanArgsError {
    /// The wrong argument count, as mruby's `ArgumentError` reports it.
    Argnum(ArgnumError),
    /// The shape requires a block and the call passed none: mruby's
    /// `ArgumentError` `no block given`.
    NoBlockGiven,
}

impl ScanArgsError {
    /// The `ArgumentError` message for a missing block: `no block given`.
    /// Nothing for a wrong count, whose message mruby's own
    /// `mrb_argnum_error` words.
    pub fn message(&self) -> (r: Option<&'static str>)
        ensures
            r is Some <==> *self == ScanArgsError::NoBlockGiven,
            r matches Some(m) ==> m@ == "no block given"@,
    {
        match self {
            ScanArgsError::NoBlockGiven => Some("no block given"),
            ScanArgsError::Argnum(_) => None,
        }
    }
}

/// The block part a read of `block` hands back: nothing when the shape
/// ignores the block, the call's block otherwise.
pub open spec fn block_part<B>(block: Option<B>, read: BlockRead) -> Option<B> {
    match read {
        BlockRead::Ignored => None,
        _ => block,
    }
}

/// The wrong argument count a call passed against a shape: what mruby's
/// `ArgumentError` for it reports.
#[derive(Copy, Clone, Debug, PartialEq, Eq, Structural)]
pub struct ArgnumError {
    /// How many positionals the call passed.
    pub given: usize,
    /// The fewest the shape accepts.
    pub min: usize,
    /// The most the shape accepts, `None` when a splat leaves it
    /// unbounded.
    pub max: Option<usize>,
}

impl ArgShape {
    /// The positionals every call must pass: the required and the
    /// trailing ones.
    pub open spec fn fixed(self) -> int {
        self.required + self.trailing
    }

    /// Whether a call passing `given` positionals fits the shape.
    pub open spec fn accepts(self, given: int) -> bool {
        &&& given >= self.fixed()
        &&& self.splat || given <= self.fixed() + self.optional
    }

    /// How many optional positionals a fitting call of `given` supplies:
    /// those past the fixed ones, up to the optional count.
    pub open spec fn supplied(self, given: int) -> int {
        if given - self.fixed() < self.optional {
            given - self.fixed()
        } else {
            self.optional as int
        }
    }
}

/// The optional slots a fitting call fills from `p`: one per declared
/// optional, the first `supplied` of them `Some`, in order, the rest
/// `None`.
pub open spec fn optional_slots<T>(p: Seq<T>, shape: ArgShape) -> Seq<Option<T>> {
    Seq::new(
        shape.optional as nat,
        |i: int|
            if i < shape.supplied(p.len() as int) {
                Some(p[shape.required + i])
            } else {
                None
            },
    )
}

/// The splat a fitting call fills from `p`: the positionals after the
/// required and the supplied optional ones, before the trailing ones.
pub open spec fn splat_part<T>(p: Seq<T>, shape: ArgShape) -> Seq<T> {
    p.subrange(shape.required + shape.supplied(p.len() as int), p.len() - shape.trailing)
}

/// The values of the slots that hold one, in order.
pub open spec fn present<T>(slots: Seq<Option<T>>) -> Seq<T>
    decreases slots.len(),
{
    if slots.len() == 0 {
        Seq::empty()
    } else {
        let rest = present(slots.drop_last());
        match slots.last() {
            Some(v) => rest.push(v),
            None => rest,
        }
    }
}

/// Part the positionals a call passed into the shape's groups, handing
/// the keyword bucket through and reading the call's block (`block`,
/// nothing when the call passed none) as the shape asks. A count the
/// shape does not accept — fewer than the required and trailing ones, or,
/// without a splat, more than those and the optional ones together —
/// answers the arity error; past that, a block the shape requires and the
/// call did not pass answers `NoBlockGiven`.
pub fn scan_args<T: Copy, Kw, B>(
    positionals: &[T],
    keywords: Kw,
    block: Option<B>,
    shape: ArgShape,
) -> (r: Result<Args<Vec<T>, Vec<Option<T>>, Vec<T>, Vec<T>, Kw, Option<B>>, ScanArgsError>)
    requires
        shape.required + shape.optional + shape.trailing <= usize::MAX,
    ensures
        (r matches Err(ScanArgsError::Argnum(_))) <==> !shape.accepts(positionals@.len() as int),
        r matches Err(ScanArgsError::Argnum(e)) ==> e == (ArgnumError {
            given: positionals@.len() as usize,
            min: shape.fixed() as usize,
            max: if shape.splat {
                None
            } else {
                Some((shape.fixed() + shape.optional) as usize)
            },
        }),
        (r matches Err(ScanArgsError::NoBlockGiven)) <==> (shape.accepts(positionals@.len() as int)
            && shape.block == BlockRead::Required && block is None),
        r matches Ok(a) ==> {
            let extra = positionals@.len() - shape.required - shape.trailing;
            let filled = if extra < shape.optional { extra } else { shape.optional as int };
            &&& forall|i: int|
                0 <= i < filled ==> #[trigger] a.optional@[i] == Some(
                    positionals@[shape.required + i],
                )
            &&& forall|i: int| filled <= i < shape.optional ==> #[trigger] a.optional@[i] is None
            &&& a.splat@.len() == extra - filled
            &&& a.splat@ == positionals@.subrange(
                shape.required + filled,
                positionals@.len() - shape.trailing,
            )
            &&& a.required@ == positionals@.subrange(0, shape.required as int)
            &&& a.optional@ == optional_slots(positionals@, shape)
            &&& a.splat@ == splat_part(positionals@, shape)
            &&& a.trailing@ == positionals@.subrange(
                positionals@.len() - shape.trailing,
                positionals@.len() as int,
            )
            &&& a.keywords == keywords
            &&& a.block == block_part(block, shape.block)
        },
{
    let n = positionals.len();
    let fixed = shape.required + shape.trailing;
    let max = if shape.splat {
        None
    } else {
        Some(fixed + shape.optional)
    };
    let too_many = match max {
        Some(m) => n > m,
        None => false,
    };
    if n < fixed || too_many {
        return Err(ScanArgsError::Argnum(ArgnumError { given: n, min: fixed, max }));
    }
    let block = match shape.block {
        BlockRead::Ignored => None,
        BlockRead::Required => {
            if block.is_none() {
                return Err(ScanArgsError::NoBlockGiven);
            }
            block
        },
        BlockRead::Optional => block,
    };
    let rest = n - fixed;
    let supplied = if rest < shape.optional {
        rest
    } else {
        shape.optional
    };
    let ghost p = positionals@;

    let mut required: Vec<T> = Vec::new();
    let mut i: usize = 0;
    while i < shape.required
        invariant
            i <= shape.required,
            shape.required <= n,
            n == p.len(),
            p == positionals@,
            required@ == p.subrange(0, i as int),
        decreases shape.required - i,
    {
        required.push(positionals[i]);
        i = i + 1;
        assert(required@ =~= p.subrange(0, i as int));
    }

    let mut optional: Vec<Option<T>> = Vec::new();
    let mut j: usize = 0;
    while j < shape.optional
        invariant
            j <= shape.optional,
            supplied == shape.supplied(n as int),
            shape.required + supplied <= n,
            n == p.len(),
            p == positionals@,
            optional@ == optional_slots(p, shape).take(j as int),
        decreases shape.optional - j,
    {
        if j < supplied {
            optional.push(Some(positionals[shape.required + j]));
        } else {
            optional.push(None);
        }
        j = j + 1;
        assert(optional@ =~= optional_slots(p, shape).take(j as int));
    }
    assert(optional@ =~= optional_slots(p, shape));

    let splat_start = shape.required + supplied;
    let splat_end = n - shape.trailing;
    let mut splat: Vec<T> = Vec::new();
    let mut k: usize = splat_start;
    while k < splat_end
        invariant
            splat_start <= k <= splat_end,
            splat_end <= n,
            n == p.len(),
            p == positionals@,
            splat@ == p.subrange(splat_start as int, k as int),
        decreases splat_end - k,
    {
        splat.push(positionals[k]);
        k = k + 1;
        assert(splat@ =~= p.subrange(splat_start as int, k as int));
    }

    let mut trailing: Vec<T> = Vec::new();
    let mut t: usize = splat_end;
    while t < n
        invariant
            splat_end <= t <= n,
            n == p.len(),
            p == positionals@,
            trailing@ == p.subrange(splat_end as int, t as int),
        decreases n - t,
    {
        trailing.push(positionals[t]);
        t = t + 1;
        assert(trailing@ =~= p.subrange(splat_end as int, t as int));
    }

    proof {
        lemma_optionals_fill_from_the_front(p, shape);
    }
    Ok(Args { required, optional, splat, trailing, keywords, block })
}

/// The values of the optional slots a fitting call fills are the
/// positionals right after the required ones, as many as it supplies.
proof fn lemma_present_optional_slots<T>(p: Seq<T>, shape: ArgShape, m: int)
    requires
        shape.accepts(p.len() as int),
        0 <= m <= shape.optional,
    ensures
        present(optional_slots(p, shape).take(m)) == p.subrange(
            shape.required as int,
            shape.required + (if m < shape.supplied(p.len() as int) {
                m
            } else {
                shape.supplied(p.len() as int)
            }),
        ),
    decreases m,
{
    let slots = optional_slots(p, shape).take(m);
    let s = shape.supplied(p.len() as int);
    if m == 0 {
        assert(slots.len() == 0);
        assert(p.subrange(shape.required as int, shape.required as int) =~= Seq::<T>::empty());
    } else {
        lemma_present_optional_slots(p, shape, m - 1);
        assert(slots.drop_last() =~= optional_slots(p, shape).take(m - 1));
        let upto = if m - 1 < s {
            m - 1
        } else {
            s
        };
        if m - 1 < s {
            assert(slots.last() == Some(p[shape.required + (m - 1)]));
            assert(p.subrange(shape.required as int, shape.required + upto).push(
                p[shape.required + (m - 1)],
            ) =~= p.subrange(shape.required as int, shape.required + m));
        } else {
            assert(slots.last() is None);
        }
    }
}

/// A fitting call fills the optional slots from the front: as many as it
/// passes beyond the required and trailing positionals, up to the
/// optional count, each with the positional right after the required
/// ones in order; only what is left past those goes to the splat, which
/// is therefore empty for a shape without one.
pub proof fn lemma_optionals_fill_from_the_front<T>(p: Seq<T>, shape: ArgShape)
    requires
        shape.accepts(p.len() as int),
    ensures
        ({
            let extra = p.len() - shape.required - shape.trailing;
            let filled = if extra < shape.optional { extra } else { shape.optional as int };
            &&& optional_slots(p, shape).len() == shape.optional
            &&& forall|i: int|
                0 <= i < filled ==> #[trigger] optional_slots(p, shape)[i] == Some(
                    p[shape.required + i],
                )
            &&& forall|i: int| filled <= i < shape.optional ==> #[trigger] optional_slots(p, shape)[i] is None
            &&& splat_part(p, shape).len() == extra - filled
            &&& splat_part(p, shape) == p.subrange(shape.required + filled, p.len() - shape.trailing)
            &&& !shape.splat ==> splat_part(p, shape).len() == 0
        }),
{
}

/// Nothing a fitting call passes is lost or reordered: the required
/// positionals, then the values of the supplied optional ones, then the
/// splat, then the trailing ones, are exactly the positionals the call
/// passed.
pub proof fn lemma_scan_args_partition<T>(p: Seq<T>, shape: ArgShape)
    requires
        shape.accepts(p.len() as int),
    ensures
        p.subrange(0, shape.required as int) + present(optional_slots(p, shape)) + splat_part(p, shape)
            + p.subrange(p.len() - shape.trailing, p.len() as int) == p,
{
    lemma_present_optional_slots(p, shape, shape.optional as int);
    assert(optional_slots(p, shape).take(shape.optional as int) =~= optional_slots(p, shape));
    let s = shape.supplied(p.len() as int);
    assert(p.subrange(0, shape.required as int) + p.subrange(
        shape.required as int,
        shape.required + s,
    ) + splat_part(p, shape) + p.subrange(p.len() - shape.trailing, p.len() as int) =~= p);
}

/// The `mrb_get_args` format a call read uses: every positional
/// uncopied (`*!`), the keyword bucket captured whole (`:`) when the
/// read has a keyword part — which leaves the frame as it was — and the
/// block slot (`&`). Without a keyword part, mruby folds a non-empty
/// keyword hash into the positionals.
pub fn call_format(keywords: bool) -> (r: &'static str)
    ensures
        r@ == (if keywords { "*!:&"@ } else { "*!&"@ }),
{
    if keywords {
        "*!:&"
    } else {
        "*!&"
    }
}

/// How many positionals a rest read's pointer and count describe: none
/// when the count is not positive or mruby left the pointer NULL (which
/// it may for an empty rest), otherwise the count.
pub fn argv_len(argc: i64, argv_is_null: bool) -> (r: usize)
    requires
        argc <= usize::MAX,
    ensures
        r == (if argc > 0 && !argv_is_null { argc as usize } else { 0 }),
{
    if argc > 0 && !argv_is_null {
        argc as usize
    } else {
        0
    }
}

/// A symbol id: the interned name a keyword is keyed by.
pub type Sym = u32;

/// What `get_kwargs` refuses a keyword bucket for: a required keyword it
/// lacks, or — with no splat to take them — a keyword neither list names.
#[derive(Copy, Clone, Debug, PartialEq, Eq, Structural)]
pub enum KwargError {
    /// The first required keyword the bucket lacks.
    Missing(Sym),
    /// The first keyword, in the bucket's order, that neither list names.
    Unknown(Sym),
}

/// No key occurs twice in the bucket, as in any hash.
pub open spec fn keys_distinct<V>(kw: Seq<(Sym, V)>) -> bool {
    forall|i: int, j: int| 0 <= i < j < kw.len() ==> kw[i].0 != kw[j].0
}

/// Whether the bucket holds the key `k`.
pub open spec fn has_key<V>(kw: Seq<(Sym, V)>, k: Sym) -> bool {
    exists|i: int| 0 <= i < kw.len() && kw[i].0 == k
}

/// The position of the key `k` in the bucket.
pub open spec fn key_index<V>(kw: Seq<(Sym, V)>, k: Sym) -> int {
    choose|i: int| 0 <= i < kw.len() && kw[i].0 == k
}

/// Taking the key `k` out of the bucket: its value, and the bucket
/// without it, its other pairs in their order; nothing, and the bucket
/// unchanged, when it lacks the key.
pub open spec fn take_key<V>(kw: Seq<(Sym, V)>, k: Sym) -> (Option<V>, Seq<(Sym, V)>) {
    if has_key(kw, k) {
        (Some(kw[key_index(kw, k)].1), kw.remove(key_index(kw, k)))
    } else {
        (None, kw)
    }
}

/// Taking each of `names` out of the bucket in turn: the value each
/// found (`None` for a name the bucket no longer holds), and what is
/// left.
pub open spec fn take_keys<V>(kw: Seq<(Sym, V)>, names: Seq<Sym>) -> (Seq<Option<V>>, Seq<(Sym, V)>)
    decreases names.len(),
{
    if names.len() == 0 {
        (Seq::empty(), kw)
    } else {
        let (found, rest) = take_keys(kw, names.drop_last());
        let (v, left) = take_key(rest, names.last());
        (found.push(v), left)
    }
}

/// The value the bucket holds under `k`, or nothing when it lacks it.
pub open spec fn lookup<V>(kw: Seq<(Sym, V)>, k: Sym) -> Option<V> {
    if has_key(kw, k) {
        Some(kw[key_index(kw, k)].1)
    } else {
        None
    }
}

/// No name occurs twice.
pub open spec fn names_distinct(names: Seq<Sym>) -> bool {
    forall|i: int, j: int| 0 <= i < j < names.len() ==> names[i] != names[j]
}

/// Every slot holds a value.
pub open spec fn all_some<V>(s: Seq<Option<V>>) -> bool {
    forall|i: int| 0 <= i < s.len() ==> s[i] is Some
}

/// The values of slots that all hold one.
pub open spec fn unwrap_all<V>(s: Seq<Option<V>>) -> Seq<V> {
    s.map_values(|o: Option<V>| o.unwrap())
}

/// The position of `k` in the bucket, or nothing when it lacks it.
fn find_key<V: Copy>(kw: &Vec<(Sym, V)>, k: Sym) -> (r: Option<usize>)
    requires
        keys_distinct(kw@),
    ensures
        r matches Some(i) ==> i < kw@.len() && kw@[i as int].0 == k && i == key_index(kw@, k),
        r is None ==> !has_key(kw@, k),
{
    let mut i: usize = 0;
    while i < kw.len()
        invariant
            i <= kw@.len(),
            keys_distinct(kw@),
            forall|j: int| 0 <= j < i ==> kw@[j].0 != k,
        decreases kw@.len() - i,
    {
        if kw[i].0 == k {
            proof {
                let c = key_index(kw@, k);
                assert(0 <= c < kw@.len() && kw@[c].0 == k);
                if c < i {
                } else if c > i {
                    assert(kw@[i as int].0 != kw@[c].0);
                }
            }
            return Some(i);
        }
        i = i + 1;
    }
    None
}

/// Take the key `k` out of the bucket in place, answering its value.
fn take_key_in<V: Copy>(rest: &mut Vec<(Sym, V)>, k: Sym) -> (r: Option<V>)
    requires
        keys_distinct(old(rest)@),
    ensures
        (r, final(rest)@) == take_key(old(rest)@, k),
        keys_distinct(final(rest)@),
{
    match find_key(rest, k) {
        Some(i) => {
            let ghost before = rest@;
            let pair = rest.remove(i);
            proof {
                assert(rest@ =~= before.remove(i as int));
                lemma_take_key_members(before, k);
            }
            Some(pair.1)
        },
        None => None,
    }
}

/// Take each of `names[0..i]` out in turn, extending what was taken by
/// one more name.
proof fn lemma_take_keys_step<V>(kw: Seq<(Sym, V)>, names: Seq<Sym>, i: int)
    requires
        0 <= i < names.len(),
    ensures
        take_keys(kw, names.take(i + 1)) == ({
            let (found, rest) = take_keys(kw, names.take(i));
            let (v, left) = take_key(rest, names[i]);
            (found.push(v), left)
        }),
{
    assert(names.take(i + 1).drop_last() =~= names.take(i));
}

/// Take the keywords `required` and `optional` name out of the bucket
/// `kw` into their values, leaving `kw` unchanged: each required name's
/// value, each optional name's value or `None` when the bucket lacks it,
/// and — when `splat` is set — the pairs neither list names. A required
/// keyword the bucket lacks answers `Missing` with the first such name,
/// and a keyword neither list names, when there is no splat to take it,
/// answers `Unknown` with the first such key in the bucket's order.
pub fn get_kwargs<V: Copy>(
    kw: &Vec<(Sym, V)>,
    required: &[Sym],
    optional: &[Sym],
    splat: bool,
) -> (r: Result<KwArgs<Vec<V>, Vec<Option<V>>, Option<Vec<(Sym, V)>>>, KwargError>)
    requires
        keys_distinct(kw@),
    ensures
        ({
            let (rv, rest1) = take_keys(kw@, required@);
            let (ov, rest2) = take_keys(rest1, optional@);
            &&& (r matches Err(KwargError::Missing(_))) <==> !all_some(rv)
            &&& r matches Err(KwargError::Missing(name)) ==> exists|i: int|
                0 <= i < required@.len() && required@[i] == name && rv[i] is None && forall|j: int|
                    0 <= j < i ==> rv[j] is Some
            &&& all_some(rv) ==> ((r is Err) <==> (!splat && rest2.len() > 0))
            &&& r matches Err(KwargError::Unknown(key)) ==> key == rest2[0].0
            &&& rest2 == kw@.filter(named_by_neither::<V>(required@, optional@))
            &&& names_distinct(required@ + optional@) ==> {
                &&& forall|i: int|
                    0 <= i < required@.len() ==> #[trigger] rv[i] == lookup(kw@, required@[i])
                &&& forall|j: int|
                    0 <= j < optional@.len() ==> #[trigger] ov[j] == lookup(kw@, optional@[j])
                &&& (r matches Err(KwargError::Missing(_))) <==> exists|i: int|
                    0 <= i < required@.len() && !has_key(kw@, #[trigger] required@[i])
            }
            &&& r matches Ok(k) ==> {
                &&& k.required@ == unwrap_all(rv)
                &&& k.optional@ == ov
                &&& k.splat is Some <==> splat
                &&& k.splat matches Some(s) ==> s@ == rest2
            }
        }),
{
    proof {
        if names_distinct(required@ + optional@) {
            lemma_kwargs_find_their_values(kw@, required@, optional@);
        }
    }
    let mut rest: Vec<(Sym, V)> = Vec::new();
    let mut c: usize = 0;
    while c < kw.len()
        invariant
            c <= kw@.len(),
            rest@ == kw@.take(c as int),
        decreases kw@.len() - c,
    {
        rest.push(kw[c]);
        c = c + 1;
        assert(rest@ =~= kw@.take(c as int));
    }
    assert(rest@ =~= kw@);

    let ghost rv = take_keys(kw@, required@).0;
    let mut required_values: Vec<V> = Vec::new();
    let mut i: usize = 0;
    while i < required.len()
        invariant
            i <= required@.len(),
            keys_distinct(rest@),
            rest@ == take_keys(kw@, required@.take(i as int)).1,
            all_some(take_keys(kw@, required@.take(i as int)).0),
            required_values@ == unwrap_all(take_keys(kw@, required@.take(i as int)).0),
            rv == take_keys(kw@, required@).0,
            keys_distinct(kw@),
        decreases required@.len() - i,
    {
        proof {
            lemma_take_keys_step(kw@, required@, i as int);
            lemma_take_keys_len(kw@, required@.take(i as int));
        }
        let ghost before = take_keys(kw@, required@.take(i as int)).0;
        let taken = take_key_in(&mut rest, required[i]);
        match taken {
            Some(value) => {
                required_values.push(value);
                proof {
                    let now = take_keys(kw@, required@.take(i + 1)).0;
                    assert(now == before.push(Some(value)));
                    assert(all_some(now));
                    assert(required_values@ =~= unwrap_all(now));
                }
            },
            None => {
                proof {
                    let now = take_keys(kw@, required@.take(i + 1)).0;
                    assert(now == before.push(None::<V>));
                    lemma_take_keys_prefix(kw@, required@, i + 1);
                    assert(now[i as int] is None);
                    assert(rv[i as int] == now[i as int]);
                    assert forall|j: int| 0 <= j < i implies rv[j] is Some by {
                        assert(rv[j] == now[j]);
                        assert(now[j] == before[j]);
                    }
                    assert(!all_some(rv));
                }
                proof {
                    if names_distinct(required@ + optional@) {
                        lemma_kwargs_find_their_values(kw@, required@, optional@);
                    }
                    lemma_kwargs_leave_the_unnamed_in_order(kw@, required@, optional@);
                }
                return Err(KwargError::Missing(required[i]));
            },
        }
        i = i + 1;
    }
    proof {
        assert(required@.take(required@.len() as int) =~= required@);
    }

    let ghost rest1 = rest@;
    let mut optional_values: Vec<Option<V>> = Vec::new();
    let mut o: usize = 0;
    while o < optional.len()
        invariant
            o <= optional@.len(),
            keys_distinct(rest@),
            rest@ == take_keys(rest1, optional@.take(o as int)).1,
            optional_values@ == take_keys(rest1, optional@.take(o as int)).0,
        decreases optional@.len() - o,
    {
        proof {
            lemma_take_keys_step(rest1, optional@, o as int);
        }
        let taken = take_key_in(&mut rest, optional[o]);
        optional_values.push(taken);
        o = o + 1;
    }
    proof {
        assert(optional@.take(optional@.len() as int) =~= optional@);
    }

    proof {
        lemma_kwargs_leave_the_unnamed_in_order(kw@, required@, optional@);
    }
    if !splat && rest.len() > 0 {
        return Err(KwargError::Unknown(rest[0].0));
    }
    let splat_part = if splat {
        Some(rest)
    } else {
        None
    };
    Ok(KwArgs { required: required_values, optional: optional_values, splat: splat_part })
}

/// Taking a prefix of the names finds, at each of its positions, what
/// taking all of them finds there.
proof fn lemma_take_keys_prefix<V>(kw: Seq<(Sym, V)>, names: Seq<Sym>, m: int)
    requires
        0 <= m <= names.len(),
    ensures
        take_keys(kw, names.take(m)).0.len() == m,
        take_keys(kw, names).0.len() == names.len(),
        forall|j: int|
            0 <= j < m ==> #[trigger] take_keys(kw, names.take(m)).0[j] == take_keys(kw, names).0[j],
    decreases names.len() - m,
{
    lemma_take_keys_len(kw, names.take(m));
    lemma_take_keys_len(kw, names);
    if m < names.len() {
        lemma_take_keys_prefix(kw, names, m + 1);
        lemma_take_keys_step(kw, names, m);
        assert forall|j: int| 0 <= j < m implies #[trigger] take_keys(kw, names.take(m)).0[j]
            == take_keys(kw, names).0[j] by {
            assert(take_keys(kw, names.take(m + 1)).0[j] == take_keys(kw, names.take(m)).0[j]);
        }
    } else {
        assert(names.take(m) =~= names);
    }
}

/// Taking `names` finds one slot per name.
proof fn lemma_take_keys_len<V>(kw: Seq<(Sym, V)>, names: Seq<Sym>)
    ensures
        take_keys(kw, names).0.len() == names.len(),
    decreases names.len(),
{
    if names.len() > 0 {
        lemma_take_keys_len(kw, names.drop_last());
    }
}

/// Taking the key `k` out of a bucket keeps its keys distinct and leaves
/// exactly the pairs not keyed by `k`.
proof fn lemma_take_key_members<V>(kw: Seq<(Sym, V)>, k: Sym)
    requires
        keys_distinct(kw),
    ensures
        keys_distinct(take_key(kw, k).1),
        forall|p: (Sym, V)| #[trigger] take_key(kw, k).1.contains(p) <==> (kw.contains(p) && p.0 != k),
{
    if has_key(kw, k) {
        let i = key_index(kw, k);
        let rest = kw.remove(i);
        assert(rest == take_key(kw, k).1);
        assert forall|a: int, b: int| 0 <= a < b < rest.len() implies rest[a].0 != rest[b].0 by {
            let a0 = if a < i {
                a
            } else {
                a + 1
            };
            let b0 = if b < i {
                b
            } else {
                b + 1
            };
            assert(rest[a] == kw[a0]);
            assert(rest[b] == kw[b0]);
        }
        assert forall|p: (Sym, V)| #[trigger] rest.contains(p) <==> (kw.contains(p) && p.0 != k) by {
            if rest.contains(p) {
                let j = rest.index_of(p);
                let j0 = if j < i {
                    j
                } else {
                    j + 1
                };
                assert(rest[j] == kw[j0]);
                assert(j0 != i);
                assert(kw.contains(p));
            }
            if kw.contains(p) && p.0 != k {
                let j0 = kw.index_of(p);
                assert(kw[j0] == p);
                assert(j0 != i);
                let j = if j0 < i {
                    j0
                } else {
                    j0 - 1
                };
                assert(rest[j] == p);
            }
        }
    } else {
        assert forall|p: (Sym, V)| #[trigger] kw.contains(p) implies p.0 != k by {
            let j = kw.index_of(p);
            assert(kw[j] == p);
        }
    }
}

/// Taking each of `names` out of a bucket keeps its keys distinct and
/// leaves exactly the pairs no name keys.
proof fn lemma_take_keys_members<V>(kw: Seq<(Sym, V)>, names: Seq<Sym>)
    requires
        keys_distinct(kw),
    ensures
        keys_distinct(take_keys(kw, names).1),
        forall|p: (Sym, V)| #[trigger] take_keys(kw, names).1.contains(p) <==> (kw.contains(p)
            && !names.contains(p.0)),
    decreases names.len(),
{
    if names.len() > 0 {
        let prefix = names.drop_last();
        lemma_take_keys_members(kw, prefix);
        let rest = take_keys(kw, prefix).1;
        let k = names.last();
        lemma_take_key_members(rest, k);
        assert forall|x: Sym| names.contains(x) <==> (prefix.contains(x) || x == k) by {
            if names.contains(x) {
                let j = names.index_of(x);
                if j < names.len() - 1 {
                    assert(prefix[j] == x);
                }
            }
            if prefix.contains(x) {
                let j = prefix.index_of(x);
                assert(names[j] == x);
            }
            if x == k {
                assert(names[names.len() - 1] == x);
            }
        }
    }
}

/// Taking the key `k` out of a bucket leaves what it holds under any
/// other key as it was.
proof fn lemma_take_key_keeps_others<V>(kw: Seq<(Sym, V)>, k: Sym, other: Sym)
    requires
        keys_distinct(kw),
        k != other,
    ensures
        lookup(take_key(kw, k).1, other) == lookup(kw, other),
{
    if has_key(kw, k) {
        let i = key_index(kw, k);
        let rest = kw.remove(i);
        lemma_take_key_members(kw, k);
        assert(keys_distinct(rest));
        if has_key(kw, other) {
            let j = key_index(kw, other);
            assert(j != i);
            let j2 = if j < i {
                j
            } else {
                j - 1
            };
            assert(rest[j2] == kw[j]);
            assert(has_key(rest, other));
            let c = key_index(rest, other);
            assert(c == j2) by {
                if c < j2 {
                    assert(rest[c].0 != rest[j2].0);
                } else if c > j2 {
                    assert(rest[j2].0 != rest[c].0);
                }
            }
        } else {
            if has_key(rest, other) {
                let c = key_index(rest, other);
                let c0 = if c < i {
                    c
                } else {
                    c + 1
                };
                assert(kw[c0] == rest[c]);
                assert(has_key(kw, other));
            }
        }
    }
}

/// Taking each of `names`, none repeated, out of a bucket finds for each
/// name the value the bucket holds under it, and leaves what it holds
/// under any other key as it was.
proof fn lemma_take_keys_lookup<V>(kw: Seq<(Sym, V)>, names: Seq<Sym>)
    requires
        keys_distinct(kw),
        names_distinct(names),
    ensures
        take_keys(kw, names).0.len() == names.len(),
        forall|i: int|
            0 <= i < names.len() ==> #[trigger] take_keys(kw, names).0[i] == lookup(kw, names[i]),
        forall|k: Sym|
            !names.contains(k) ==> #[trigger] lookup(take_keys(kw, names).1, k) == lookup(kw, k),
    decreases names.len(),
{
    lemma_take_keys_len(kw, names);
    if names.len() > 0 {
        let prefix = names.drop_last();
        let last = names.last();
        lemma_take_keys_lookup(kw, prefix);
        lemma_take_keys_members(kw, prefix);
        let rest = take_keys(kw, prefix).1;
        assert(!prefix.contains(last)) by {
            if prefix.contains(last) {
                let j = prefix.index_of(last);
                assert(names[j] == last);
                assert(names[names.len() - 1] == last);
            }
        }
        let found = take_keys(kw, prefix).0;
        assert(take_keys(kw, names).0 == found.push(take_key(rest, last).0));
        assert(lookup(take_keys(kw, prefix).1, last) == lookup(kw, last));
        assert forall|i: int| 0 <= i < names.len() implies #[trigger] take_keys(kw, names).0[i]
            == lookup(kw, names[i]) by {
            if i < names.len() - 1 {
                assert(names[i] == prefix[i]);
                assert(found[i] == lookup(kw, prefix[i]));
            } else {
                assert(names[i] == last);
            }
        }
        assert forall|k: Sym| !names.contains(k) implies #[trigger] lookup(take_keys(kw, names).1, k)
            == lookup(kw, k) by {
            assert(names[names.len() - 1] == last);
            assert(k != last);
            assert(!prefix.contains(k)) by {
                if prefix.contains(k) {
                    let j = prefix.index_of(k);
                    assert(names[j] == k);
                }
            }
            lemma_take_key_keeps_others(rest, last, k);
        }
    }
}

/// A keyword read finds each name's own value: when no name occurs twice
/// across the two lists, every required and every optional name finds
/// the value the bucket holds under it, or nothing when the bucket lacks
/// it — so the read refuses with `Missing` exactly when some required
/// name is not a key of the bucket, and a present key is never lost.
pub proof fn lemma_kwargs_find_their_values<V>(
    kw: Seq<(Sym, V)>,
    required: Seq<Sym>,
    optional: Seq<Sym>,
)
    requires
        keys_distinct(kw),
        names_distinct(required + optional),
    ensures
        ({
            let (rv, rest1) = take_keys(kw, required);
            let ov = take_keys(rest1, optional).0;
            &&& rv.len() == required.len()
            &&& ov.len() == optional.len()
            &&& forall|i: int| 0 <= i < required.len() ==> #[trigger] rv[i] == lookup(kw, required[i])
            &&& forall|j: int| 0 <= j < optional.len() ==> #[trigger] ov[j] == lookup(kw, optional[j])
            &&& all_some(rv) <==> forall|i: int|
                0 <= i < required.len() ==> has_key(kw, #[trigger] required[i])
        }),
{
    let all = required + optional;
    assert(names_distinct(required)) by {
        assert forall|i: int, j: int| 0 <= i < j < required.len() implies required[i]
            != required[j] by {
            assert(all[i] == required[i]);
            assert(all[j] == required[j]);
        }
    }
    assert(names_distinct(optional)) by {
        assert forall|i: int, j: int| 0 <= i < j < optional.len() implies optional[i]
            != optional[j] by {
            assert(all[required.len() + i] == optional[i]);
            assert(all[required.len() + j] == optional[j]);
        }
    }
    lemma_take_keys_lookup(kw, required);
    lemma_take_keys_members(kw, required);
    let rest1 = take_keys(kw, required).1;
    lemma_take_keys_lookup(rest1, optional);
    let rv = take_keys(kw, required).0;
    let ov = take_keys(rest1, optional).0;
    assert forall|j: int| 0 <= j < optional.len() implies #[trigger] ov[j] == lookup(
        kw,
        optional[j],
    ) by {
        assert(!required.contains(optional[j])) by {
            if required.contains(optional[j]) {
                let i = required.index_of(optional[j]);
                assert(all[i] == required[i]);
                assert(all[required.len() + j] == optional[j]);
            }
        }
        assert(lookup(rest1, optional[j]) == lookup(kw, optional[j]));
    }
    assert(all_some(rv) <==> forall|i: int|
        0 <= i < required.len() ==> has_key(kw, #[trigger] required[i])) by {
        if all_some(rv) {
            assert forall|i: int| 0 <= i < required.len() implies has_key(
                kw,
                #[trigger] required[i],
            ) by {
                assert(rv[i] == lookup(kw, required[i]));
            }
        }
        if forall|i: int| 0 <= i < required.len() ==> has_key(kw, #[trigger] required[i]) {
            assert forall|i: int| 0 <= i < rv.len() implies rv[i] is Some by {
                assert(has_key(kw, required[i]));
            }
        }
    }
}

/// Keeps the pairs not keyed by `k`.
pub open spec fn key_is_not<V>(k: Sym) -> spec_fn((Sym, V)) -> bool {
    |p: (Sym, V)| p.0 != k
}

/// Keeps the pairs whose key none of `names` is.
pub open spec fn named_by_none<V>(names: Seq<Sym>) -> spec_fn((Sym, V)) -> bool {
    |p: (Sym, V)| !names.contains(p.0)
}

/// Keeps the pairs whose key neither `required` nor `optional` names.
pub open spec fn named_by_neither<V>(required: Seq<Sym>, optional: Seq<Sym>) -> spec_fn(
    (Sym, V),
) -> bool {
    |p: (Sym, V)| !required.contains(p.0) && !optional.contains(p.0)
}

/// Filtering by a predicate every element meets keeps the sequence.
proof fn lemma_filter_keeps_all<T>(s: Seq<T>, pred: spec_fn(T) -> bool)
    requires
        forall|i: int| 0 <= i < s.len() ==> pred(#[trigger] s[i]),
    ensures
        s.filter(pred) == s,
    decreases s.len(),
{
    reveal(Seq::filter);
    if s.len() > 0 {
        lemma_filter_keeps_all(s.drop_last(), pred);
        assert(s.drop_last().push(s.last()) =~= s);
    }
}

/// Filtering twice is filtering once by both predicates.
proof fn lemma_filter_twice<T>(s: Seq<T>, a: spec_fn(T) -> bool, b: spec_fn(T) -> bool)
    ensures
        s.filter(a).filter(b) == s.filter(|x: T| a(x) && b(x)),
    decreases s.len(),
{
    reveal(Seq::filter);
    if s.len() > 0 {
        let init = s.drop_last();
        let x = s.last();
        lemma_filter_twice(init, a, b);
        if a(x) {
            let t = init.filter(a);
            assert(t.push(x).drop_last() =~= t);
        }
    }
}

/// Taking the key `k` out of a bucket whose keys are distinct leaves its
/// other pairs, in the bucket's order.
proof fn lemma_take_key_keeps_order<V>(kw: Seq<(Sym, V)>, k: Sym)
    requires
        keys_distinct(kw),
    ensures
        take_key(kw, k).1 == kw.filter(key_is_not::<V>(k)),
    decreases kw.len(),
{
    reveal(Seq::filter);
    let pred = key_is_not::<V>(k);
    if kw.len() > 0 {
        let n = kw.len() - 1;
        let init = kw.drop_last();
        let last = kw.last();
        assert(keys_distinct(init));
        lemma_take_key_keeps_order(init, k);
        if last.0 == k {
            assert(kw[n].0 == k);
            assert(has_key(kw, k));
            let i = key_index(kw, k);
            assert(i == n) by {
                if i < n {
                    assert(kw[i].0 != kw[n].0);
                }
            }
            assert(kw.remove(i) =~= init);
            assert(!has_key(init, k)) by {
                if has_key(init, k) {
                    let j = key_index(init, k);
                    assert(kw[j].0 != kw[n].0);
                }
            }
            assert(forall|j: int| 0 <= j < init.len() ==> pred(#[trigger] init[j])) by {
                assert forall|j: int| 0 <= j < init.len() implies pred(#[trigger] init[j]) by {
                    assert(kw[j] == init[j]);
                    assert(kw[j].0 != kw[n].0);
                }
            }
            lemma_filter_keeps_all(init, pred);
        } else if has_key(kw, k) {
            let i = key_index(kw, k);
            assert(i < n);
            assert(init[i] == kw[i]);
            assert(has_key(init, k));
            let j = key_index(init, k);
            assert(j == i) by {
                if j < i {
                    assert(kw[j].0 != kw[i].0);
                } else if j > i {
                    assert(kw[i].0 != kw[j].0);
                }
            }
            assert(kw.remove(i) =~= init.remove(i).push(last));
        } else {
            assert(!has_key(init, k)) by {
                if has_key(init, k) {
                    let j = key_index(init, k);
                    assert(kw[j] == init[j]);
                }
            }
            assert(init.push(last) =~= kw);
        }
    }
}

/// Taking each of `names` out of a bucket whose keys are distinct leaves
/// exactly the pairs no name keys, in the bucket's order.
proof fn lemma_take_keys_keeps_order<V>(kw: Seq<(Sym, V)>, names: Seq<Sym>)
    requires
        keys_distinct(kw),
    ensures
        take_keys(kw, names).1 == kw.filter(named_by_none::<V>(names)),
    decreases names.len(),
{
    if names.len() == 0 {
        assert(forall|j: int| 0 <= j < kw.len() ==> named_by_none::<V>(names)(#[trigger] kw[j]));
        lemma_filter_keeps_all(kw, named_by_none::<V>(names));
    } else {
        let prefix = names.drop_last();
        let last = names.last();
        lemma_take_keys_keeps_order(kw, prefix);
        lemma_take_keys_members(kw, prefix);
        let rest = take_keys(kw, prefix).1;
        lemma_take_key_keeps_order(rest, last);
        lemma_filter_twice(kw, named_by_none::<V>(prefix), key_is_not::<V>(last));
        assert forall|x: Sym| names.contains(x) <==> (prefix.contains(x) || x == last) by {
            if names.contains(x) {
                let j = names.index_of(x);
                if j < names.len() - 1 {
                    assert(prefix[j] == x);
                }
            }
            if prefix.contains(x) {
                let j = prefix.index_of(x);
                assert(names[j] == x);
            }
            if x == last {
                assert(names[names.len() - 1] == x);
            }
        }
        let both = |p: (Sym, V)| named_by_none::<V>(prefix)(p) && key_is_not::<V>(last)(p);
        assert(both =~= named_by_none::<V>(names));
    }
}

/// What a keyword read leaves after taking the named keywords — the
/// splat it hands back, and where an unknown keyword is found — is the
/// bucket with exactly the named pairs removed, its other pairs in the
/// bucket's order.
pub proof fn lemma_kwargs_leave_the_unnamed_in_order<V>(
    kw: Seq<(Sym, V)>,
    required: Seq<Sym>,
    optional: Seq<Sym>,
)
    requires
        keys_distinct(kw),
    ensures
        take_keys(take_keys(kw, required).1, optional).1 == kw.filter(
            named_by_neither::<V>(required, optional),
        ),
{
    lemma_take_keys_keeps_order(kw, required);
    lemma_take_keys_members(kw, required);
    lemma_take_keys_keeps_order(take_keys(kw, required).1, optional);
    lemma_filter_twice(kw, named_by_none::<V>(required), named_by_none::<V>(optional));
    let both = |p: (Sym, V)| named_by_none::<V>(required)(p) && named_by_none::<V>(optional)(p);
    assert(both =~= named_by_neither::<V>(required, optional));
}

/// The splat a keyword read hands back holds exactly the keywords
/// neither list names: every pair of the bucket whose key is in neither
/// the required nor the optional names, and nothing else.
pub proof fn lemma_kwargs_splat_holds_the_unnamed<V>(
    kw: Seq<(Sym, V)>,
    required: Seq<Sym>,
    optional: Seq<Sym>,
)
    requires
        keys_distinct(kw),
    ensures
        ({
            let rest = take_keys(take_keys(kw, required).1, optional).1;
            forall|p: (Sym, V)| #[trigger] rest.contains(p) <==> (kw.contains(p) && !required.contains(p.0)
                && !optional.contains(p.0))
        }),
{
    lemma_take_keys_members(kw, required);
    lemma_take_keys_members(take_keys(kw, required).1, optional);
}

impl KwargError {
    /// The `ArgumentError` message for this refusal, with `name` the
    /// keyword's rendered name: `missing keyword: name` or
    /// `unknown keyword: name`.
    pub fn message(&self, name: &str) -> (r: String)
        ensures
            r@ == (match self {
                KwargError::Missing(_) => "missing keyword: "@,
                KwargError::Unknown(_) => "unknown keyword: "@,
            }) + name@,
    {
        let mut r = match self {
            KwargError::Missing(_) => String::from_str("missing keyword: "),
            KwargError::Unknown(_) => String::from_str("unknown keyword: "),
        };
        r.append(name);
        r
    }
}

} // verus!
