//! The typed decode and encode contract, its instances for integers, and the
//! two sequence shapes of the format: a run of known length and a run
//! prefixed by its 32-bit count.

use crate::error::{ParseError, ParseErrorModel};
use crate::primitive::{
    as_unsigned32, lemma_signed_round_trip, lemma_u32_round_trip, put_i32, put_u32, put_u8,
    spec_i32, spec_u32, spec_u8, u32_bytes,
};
use crate::stream::{decoded, lemma_advanced_rest, Stream};
use vstd::prelude::*;

verus! {

broadcast use lemma_advanced_rest;

/// A value with a wire form.
///
/// `spec_parse` is the mathematical parser: from the unread bytes to the value
/// and the number of bytes it takes, or to the error. `spec_bytes` is the
/// mathematical encoder. `parse` and `write` are held to them.
pub trait Encodable: Sized + DeepView {
    /// The parser: the value at the start of `s` and its length in bytes.
    spec fn spec_parse(s: Seq<u8>) -> Result<(<Self as DeepView>::V, int), ParseErrorModel>;

    /// The wire form of `v`.
    spec fn spec_bytes(v: <Self as DeepView>::V) -> Seq<u8>;

    /// Decodes one value at the cursor. The cursor moves past the value, or
    /// stays where it stood when there is none to decode.
    fn parse(data: &mut Stream) -> (r: Result<Self, ParseError>)
        ensures
            decoded(*old(data), *final(data), r, Self::spec_parse(old(data).rest())),
    ;

    /// Appends the wire form of the value to `out`.
    fn write(&self, out: &mut Vec<u8>)
        ensures
            final(out)@ == old(out)@ + Self::spec_bytes(self.deep_view()),
    ;
}

impl Encodable for u8 {
    open spec fn spec_parse(s: Seq<u8>) -> Result<(u8, int), ParseErrorModel> {
        spec_u8(s)
    }

    open spec fn spec_bytes(v: u8) -> Seq<u8> {
        seq![v]
    }

    fn parse(data: &mut Stream) -> (r: Result<Self, ParseError>) {
        data.read_u8()
    }

    fn write(&self, out: &mut Vec<u8>) {
        put_u8(out, *self)
    }
}

impl Encodable for u32 {
    open spec fn spec_parse(s: Seq<u8>) -> Result<(u32, int), ParseErrorModel> {
        spec_u32(s)
    }

    open spec fn spec_bytes(v: u32) -> Seq<u8> {
        u32_bytes(v)
    }

    fn parse(data: &mut Stream) -> (r: Result<Self, ParseError>) {
        data.read_u32()
    }

    fn write(&self, out: &mut Vec<u8>) {
        put_u32(out, *self)
    }
}

impl Encodable for i32 {
    open spec fn spec_parse(s: Seq<u8>) -> Result<(i32, int), ParseErrorModel> {
        spec_i32(s)
    }

    open spec fn spec_bytes(v: i32) -> Seq<u8> {
        u32_bytes(as_unsigned32(v))
    }

    fn parse(data: &mut Stream) -> (r: Result<Self, ParseError>) {
        data.read_i32()
    }

    fn write(&self, out: &mut Vec<u8>) {
        put_i32(out, *self)
    }
}

/// Parser of exactly `n` values in a row, without a count in front. It stops
/// at the first value that fails, with that value's error.
pub open spec fn spec_parse_n<T: Encodable>(s: Seq<u8>, n: nat) -> Result<
    (Seq<T::V>, int),
    ParseErrorModel,
>
    decreases n,
{
    if n == 0 {
        Ok((Seq::empty(), 0))
    } else {
        match T::spec_parse(s) {
            Err(e) => Err(e),
            Ok((v, k)) => match spec_parse_n::<T>(s.skip(k), (n - 1) as nat) {
                Err(e) => Err(e),
                Ok((vs, m)) => Ok((seq![v] + vs, k + m)),
            },
        }
    }
}

/// The wire forms of the values of `vs`, one after the other.
pub open spec fn spec_bytes_all<T: Encodable>(vs: Seq<T::V>) -> Seq<u8>
    decreases vs.len(),
{
    if vs.len() == 0 {
        Seq::empty()
    } else {
        T::spec_bytes(vs[0]) + spec_bytes_all::<T>(vs.skip(1))
    }
}

/// The count that goes in front of a run of `len` values: `len` itself, or the
/// largest 32-bit number where `len` is beyond it.
pub open spec fn count_field(len: nat) -> u32 {
    if len <= u32::MAX {
        len as u32
    } else {
        u32::MAX
    }
}

/// Decodes exactly `n` values in a row. No count is read, and nothing is
/// returned unless all `n` decode.
pub fn parse_array<T: Encodable>(data: &mut Stream, n: usize) -> (r: Result<Vec<T>, ParseError>)
    ensures
        decoded(*old(data), *final(data), r, spec_parse_n::<T>(old(data).rest(), n as nat)),
        r matches Ok(v) ==> v@.len() == n,
{
    let ghost whole = spec_parse_n::<T>(data.rest(), n as nat);
    let ghost start = *data;
    let mut cur = *data;
    let mut res: Vec<T> = Vec::new();
    let mut i: usize = 0;
    // reading the position tells that the cursor lies inside its buffer
    let _ = cur.pos();
    assert(res.deep_view() =~= Seq::<T::V>::empty());
    while i < n
        invariant
            i <= n,
            start == *old(data),
            *data == *old(data),
            whole == spec_parse_n::<T>(start.rest(), n as nat),
            cur.bytes() == start.bytes(),
            start.in_bounds(),
            cur.in_bounds(),
            start.position() <= cur.position(),
            res.deep_view().len() == i,
            res@.len() == i,
            match spec_parse_n::<T>(cur.rest(), (n - i) as nat) {
                Ok((vs, m)) => whole == Ok::<(Seq<T::V>, int), ParseErrorModel>(
                    (res.deep_view() + vs, cur.position() - start.position() + m),
                ),
                Err(e) => whole == Err::<(Seq<T::V>, int), ParseErrorModel>(e),
            },
        decreases n - i,
    {
        let ghost before = cur;
        let ghost acc = res.deep_view();
        match T::parse(&mut cur) {
            Ok(x) => {
                proof {
                    let (v, k) = T::spec_parse(before.rest())->Ok_0;
                    assert(cur.rest() == before.rest().skip(k));
                    let ghost_next = spec_parse_n::<T>(cur.rest(), (n - i - 1) as nat);
                    match ghost_next {
                        Ok((vs, m)) => {
                            assert(acc + (seq![v] + vs) =~= acc.push(v) + vs);
                        },
                        Err(e) => {},
                    }
                }
                res.push(x);
                proof {
                    assert(res.deep_view() =~= acc.push(x.deep_view()));
                }
                i = i + 1;
            },
            Err(e) => {
                return Err(e);
            },
        }
    }
    proof {
        assert(res.deep_view() + Seq::<T::V>::empty() =~= res.deep_view());
    }
    *data = cur;
    Ok(res)
}

/// Appends the wire forms of all values of `items`, in order and without a
/// count in front.
pub fn write_array<T: Encodable>(items: &Vec<T>, out: &mut Vec<u8>)
    ensures
        final(out)@ == old(out)@ + spec_bytes_all::<T>(items.deep_view()),
{
    let ghost all = items.deep_view();
    let n = items.len();
    let mut i: usize = 0;
    assert(all.skip(0) =~= all);
    while i < n
        invariant
            i <= n,
            n == items@.len(),
            all == items.deep_view(),
            all.len() == n,
            out@ + spec_bytes_all::<T>(all.skip(i as int)) == old(out)@ + spec_bytes_all::<T>(all),
        decreases n - i,
    {
        let ghost prev = out@;
        let ghost tail = all.skip(i as int);
        items[i].write(out);
        proof {
            assert(tail[0] == items[i as int].deep_view());
            assert(tail.skip(1) =~= all.skip(i + 1));
            let b = T::spec_bytes(tail[0]);
            let more = spec_bytes_all::<T>(all.skip(i + 1));
            assert((prev + b) + more =~= prev + (b + more));
        }
        i = i + 1;
    }
    proof {
        assert(all.skip(n as int) =~= Seq::<T::V>::empty());
        assert(out@ + Seq::<u8>::empty() =~= out@);
    }
}

/// The result of a parser with its value passed through `f`.
pub open spec fn spec_map<A, B>(r: Result<(A, int), ParseErrorModel>, f: spec_fn(A) -> B) -> Result<
    (B, int),
    ParseErrorModel,
> {
    match r {
        Ok((a, n)) => Ok((f(a), n)),
        Err(e) => Err(e),
    }
}

/// The `N` words of `v` as an array.
pub fn words_to_array<const N: usize>(v: &Vec<u32>) -> (a: [u32; N])
    requires
        v@.len() == N,
    ensures
        a.deep_view() == v.deep_view(),
{
    let mut a = [0u32;N];
    let mut i: usize = 0;
    while i < N
        invariant
            i <= N,
            v@.len() == N,
            forall|j: int| 0 <= j < i ==> a@[j] == v@[j],
        decreases N - i,
    {
        a[i] = v[i];
        i = i + 1;
    }
    assert(a.deep_view() =~= v.deep_view());
    a
}

/// The words of `a` as a vector.
pub fn array_to_words<const N: usize>(a: &[u32; N]) -> (v: Vec<u32>)
    ensures
        v.deep_view() == a.deep_view(),
{
    let mut v: Vec<u32> = Vec::new();
    let mut i: usize = 0;
    while i < N
        invariant
            i <= N,
            v@.len() == i,
            forall|j: int| 0 <= j < i ==> v@[j] == a@[j],
        decreases N - i,
    {
        v.push(a[i]);
        i = i + 1;
    }
    assert(v.deep_view() =~= a.deep_view());
    v
}

/// Parser of a value that may be absent: a presence byte, and the value where
/// that byte is not zero.
pub open spec fn spec_optional<T: Encodable>(s: Seq<u8>) -> Result<
    (Option<T::V>, int),
    ParseErrorModel,
> {
    match spec_u8(s) {
        Err(e) => Err(e),
        Ok((present, k)) => if present == 0 {
            Ok((None, k))
        } else {
            match T::spec_parse(s.skip(k)) {
                Err(e) => Err(e),
                Ok((v, n)) => Ok((Some(v), k + n)),
            }
        },
    }
}

/// The wire form of a value that may be absent: a zero byte, or the byte one
/// and the value.
pub open spec fn spec_optional_bytes<T: Encodable>(v: Option<T::V>) -> Seq<u8> {
    match v {
        None => seq![0u8],
        Some(x) => seq![1u8] + T::spec_bytes(x),
    }
}

/// Decodes a value that may be absent.
pub fn parse_optional<T: Encodable>(data: &mut Stream) -> (r: Result<Option<T>, ParseError>)
    ensures
        decoded(*old(data), *final(data), r, spec_optional::<T>(old(data).rest())),
{
    let mut cur = *data;
    let present = cur.read_u8()?;
    if present == 0 {
        *data = cur;
        Ok(None)
    } else {
        let v = T::parse(&mut cur)?;
        *data = cur;
        Ok(Some(v))
    }
}

/// Appends a value that may be absent.
pub fn write_optional<T: Encodable>(v: &Option<T>, out: &mut Vec<u8>)
    ensures
        final(out)@ == old(out)@ + spec_optional_bytes::<T>(v.deep_view()),
{
    match v {
        None => {
            put_u8(out, 0);
        },
        Some(x) => {
            put_u8(out, 1);
            x.write(out);
            assert(out@ =~= old(out)@ + (seq![1u8] + T::spec_bytes(x.deep_view())));
        },
    }
}

impl<T: Encodable> Encodable for Vec<T> {
    open spec fn spec_parse(s: Seq<u8>) -> Result<(Seq<T::V>, int), ParseErrorModel> {
        match spec_u32(s) {
            Err(e) => Err(e),
            Ok((n, k)) => match spec_parse_n::<T>(s.skip(k), n as nat) {
                Err(e) => Err(e),
                Ok((vs, m)) => Ok((vs, k + m)),
            },
        }
    }

    open spec fn spec_bytes(v: Seq<T::V>) -> Seq<u8> {
        u32_bytes(count_field(v.len())) + spec_bytes_all::<T>(v)
    }

    fn parse(data: &mut Stream) -> (r: Result<Self, ParseError>) {
        let mut cur = *data;
        let n = cur.read_u32()?;
        let items = parse_array::<T>(&mut cur, n as usize)?;
        *data = cur;
        Ok(items)
    }

    fn write(&self, out: &mut Vec<u8>) {
        let n = self.len();
        let count: u32 = if n <= 0xffff_ffff {
            n as u32
        } else {
            0xffff_ffff
        };
        put_u32(out, count);
        write_array::<T>(self, out);
        proof {
            let a = u32_bytes(count_field(self.deep_view().len()));
            let b = spec_bytes_all::<T>(self.deep_view());
            assert((old(out)@ + a) + b =~= old(out)@ + (a + b));
        }
    }
}

/// A wire form that decodes to the value it was made from.
///
/// `valid` singles out the values that the format can hold: counts that fit
/// their fields, runs of the length that the format fixes, text that the
/// encodings give back unchanged. For such a value, decoding its wire form
/// yields the value again and takes exactly the bytes of the wire form,
/// whatever follows them.
pub trait RoundTrip: Encodable {
    /// The value is one that the format can hold.
    spec fn valid(v: <Self as DeepView>::V) -> bool;

    /// Decoding the wire form of a valid value gives the value back and stops
    /// where the wire form ends.
    proof fn lemma_round_trip(v: <Self as DeepView>::V, rest: Seq<u8>)
        requires
            Self::valid(v),
        ensures
            Self::spec_parse(Self::spec_bytes(v) + rest) == Ok::<
                (<Self as DeepView>::V, int),
                ParseErrorModel,
            >((v, Self::spec_bytes(v).len() as int)),
    ;
}

/// Cutting a prefix off a concatenation leaves the rest, and taking it gives
/// the prefix.
pub proof fn lemma_split(b: Seq<u8>, rest: Seq<u8>)
    ensures
        (b + rest).skip(b.len() as int) == rest,
        (b + rest).take(b.len() as int) == b,
        (b + rest).len() == b.len() + rest.len(),
{
    assert((b + rest).skip(b.len() as int) =~= rest);
    assert((b + rest).take(b.len() as int) =~= b);
}

/// Concatenation may be regrouped: three pieces.
pub proof fn lemma_concat3(a: Seq<u8>, b: Seq<u8>, c: Seq<u8>)
    ensures
        a + b + c == a + (b + c),
{
    assert(a + b + c =~= a + (b + c));
}

/// Concatenation may be regrouped: four pieces.
pub proof fn lemma_concat4(a: Seq<u8>, b: Seq<u8>, c: Seq<u8>, d: Seq<u8>)
    ensures
        a + b + c + d == a + (b + (c + d)),
{
    lemma_concat3(a + b, c, d);
    lemma_concat3(a, b, c + d);
}

/// Concatenation may be regrouped: five pieces.
pub proof fn lemma_concat5(a: Seq<u8>, b: Seq<u8>, c: Seq<u8>, d: Seq<u8>, e: Seq<u8>)
    ensures
        a + b + c + d + e == a + (b + (c + (d + e))),
{
    lemma_concat3(a + b + c, d, e);
    lemma_concat4(a, b, c, d + e);
}

/// Concatenation may be regrouped: six pieces.
pub proof fn lemma_concat6(
    a: Seq<u8>,
    b: Seq<u8>,
    c: Seq<u8>,
    d: Seq<u8>,
    e: Seq<u8>,
    f: Seq<u8>,
)
    ensures
        a + b + c + d + e + f == a + (b + (c + (d + (e + f)))),
{
    lemma_concat3(a + b + c + d, e, f);
    lemma_concat5(a, b, c, d, e + f);
}

/// Concatenation may be regrouped: seven pieces.
pub proof fn lemma_concat7(
    a: Seq<u8>,
    b: Seq<u8>,
    c: Seq<u8>,
    d: Seq<u8>,
    e: Seq<u8>,
    f: Seq<u8>,
    g: Seq<u8>,
)
    ensures
        a + b + c + d + e + f + g == a + (b + (c + (d + (e + (f + g))))),
{
    lemma_concat3(a + b + c + d + e, f, g);
    lemma_concat6(a, b, c, d, e, f + g);
}

impl RoundTrip for u8 {
    open spec fn valid(v: u8) -> bool {
        true
    }

    proof fn lemma_round_trip(v: u8, rest: Seq<u8>) {
    }
}

impl RoundTrip for u32 {
    open spec fn valid(v: u32) -> bool {
        true
    }

    proof fn lemma_round_trip(v: u32, rest: Seq<u8>) {
        lemma_u32_round_trip(v, rest);
    }
}

impl RoundTrip for i32 {
    open spec fn valid(v: i32) -> bool {
        true
    }

    proof fn lemma_round_trip(v: i32, rest: Seq<u8>) {
        lemma_u32_round_trip(as_unsigned32(v), rest);
        lemma_signed_round_trip(0, v);
    }
}

/// Every value of `vs` is one that the format can hold.
pub open spec fn all_valid<T: RoundTrip>(vs: Seq<T::V>) -> bool {
    forall|i: int| 0 <= i < vs.len() ==> T::valid(#[trigger] vs[i])
}

/// A run without count decodes to the values it was made from.
pub proof fn lemma_round_trip_n<T: RoundTrip>(vs: Seq<T::V>, rest: Seq<u8>)
    requires
        all_valid::<T>(vs),
    ensures
        spec_parse_n::<T>(spec_bytes_all::<T>(vs) + rest, vs.len()) == Ok::<
            (Seq<T::V>, int),
            ParseErrorModel,
        >((vs, spec_bytes_all::<T>(vs).len() as int)),
    decreases vs.len(),
{
    if vs.len() == 0 {
        assert(vs =~= Seq::<T::V>::empty());
    } else {
        let b0 = T::spec_bytes(vs[0]);
        let tl = vs.skip(1);
        let bt = spec_bytes_all::<T>(tl);
        assert(spec_bytes_all::<T>(vs) + rest =~= b0 + (bt + rest));
        T::lemma_round_trip(vs[0], bt + rest);
        lemma_split(b0, bt + rest);
        assert forall|i: int| 0 <= i < tl.len() implies T::valid(#[trigger] tl[i]) by {
            assert(tl[i] == vs[i + 1]);
        }
        lemma_round_trip_n::<T>(tl, rest);
        assert(seq![vs[0]] + tl =~= vs);
    }
}

/// Exactly as many values come out of a run as were asked for, and no more
/// bytes are taken than there are.
pub proof fn lemma_parse_n_len<T: Encodable>(s: Seq<u8>, n: nat)
    ensures
        spec_parse_n::<T>(s, n) matches Ok((vs, m)) ==> vs.len() == n,
    decreases n,
{
    if n != 0 {
        match T::spec_parse(s) {
            Ok((v, k)) => {
                lemma_parse_n_len::<T>(s.skip(k), (n - 1) as nat);
            },
            Err(e) => {},
        }
    }
}

/// A value that may be absent decodes to what it was made from.
pub proof fn lemma_round_trip_optional<T: RoundTrip>(v: Option<T::V>, rest: Seq<u8>)
    requires
        v matches Some(x) ==> T::valid(x),
    ensures
        spec_optional::<T>(spec_optional_bytes::<T>(v) + rest) == Ok::<
            (Option<T::V>, int),
            ParseErrorModel,
        >((v, spec_optional_bytes::<T>(v).len() as int)),
{
    match v {
        None => {},
        Some(x) => {
            let b = T::spec_bytes(x);
            assert(spec_optional_bytes::<T>(v) + rest =~= seq![1u8] + (b + rest));
            lemma_split(seq![1u8], b + rest);
            T::lemma_round_trip(x, rest);
        },
    }
}

impl<T: RoundTrip> RoundTrip for Vec<T> {
    open spec fn valid(v: Seq<T::V>) -> bool {
        v.len() <= u32::MAX && all_valid::<T>(v)
    }

    proof fn lemma_round_trip(v: Seq<T::V>, rest: Seq<u8>) {
        let h = u32_bytes(count_field(v.len()));
        let b = spec_bytes_all::<T>(v);
        assert(Self::spec_bytes(v) + rest =~= h + (b + rest));
        lemma_u32_round_trip(count_field(v.len()), b + rest);
        lemma_round_trip_n::<T>(v, rest);
    }
}

/// A run of `n` 32-bit words takes exactly `4 * n` bytes, however many bytes
/// follow, and fails only for want of them.
pub proof fn lemma_words_consumed(s: Seq<u8>, n: nat)
    ensures
        match spec_parse_n::<u32>(s, n) {
            Ok((vs, m)) => vs.len() == n && m == 4 * n && s.len() >= 4 * n,
            Err(e) => e == ParseErrorModel::Io && s.len() < 4 * n,
        },
    decreases n,
{
    if n != 0 {
        if s.len() >= 4 {
            lemma_words_consumed(s.skip(4), (n - 1) as nat);
        }
    }
}

} // verus!
