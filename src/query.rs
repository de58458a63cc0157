use vstd::prelude::*;
use vstd::string::StringExecFns;
use vstd::utf8::{encode_scalar, encode_utf8};

use crate::options::{Entry, Number, OptionValue, RequestOptions, Scalar};

verus! {

/// The decimal digit `d` (0 to 9) as a character.
pub open spec fn digit_char(d: int) -> char {
    seq!['0', '1', '2', '3', '4', '5', '6', '7', '8', '9'][d]
}

/// The decimal form of `n`, without leading zeros.
pub open spec fn decimal(n: nat) -> Seq<char>
    decreases n,
{
    if n < 10 {
        seq![digit_char(n as int)]
    } else {
        decimal(n / 10).push(digit_char((n % 10) as int))
    }
}

/// The decimal form of an integer, with a leading `-` when it is negative.
pub open spec fn int_text(i: int) -> Seq<char> {
    if i < 0 {
        seq!['-'] + decimal((-i) as nat)
    } else {
        decimal(i as nat)
    }
}

/// The text a value takes in a query string; `None` for a value that is not a scalar.
pub open spec fn scalar_text(v: Scalar) -> Option<Seq<char>> {
    match v {
        Scalar::Text(s) => Some(s),
        Scalar::Int(i) => Some(int_text(i)),
        Scalar::Decimal(s) => Some(s),
        Scalar::Flag(b) => Some(
            if b {
                seq!['t', 'r', 'u', 'e']
            } else {
                seq!['f', 'a', 'l', 's', 'e']
            },
        ),
        Scalar::Other => None,
    }
}

/// A byte that percent-encoding leaves as it is: an ASCII letter or digit, `-`, `.`, `_` or `~`.
pub open spec fn is_unreserved(b: u8) -> bool {
    (0x30 <= b <= 0x39) || (0x41 <= b <= 0x5a) || (0x61 <= b <= 0x7a) || b == 0x2d || b == 0x2e
        || b == 0x5f || b == 0x7e
}

/// The uppercase hexadecimal digit `d` (0 to 15).
pub open spec fn hex_digit_upper(d: int) -> char {
    seq!['0', '1', '2', '3', '4', '5', '6', '7', '8', '9', 'A', 'B', 'C', 'D', 'E', 'F'][d]
}

/// One byte, percent-encoded.
pub open spec fn percent_encode_byte(b: u8) -> Seq<char> {
    if is_unreserved(b) {
        seq![b as char]
    } else {
        seq!['%', hex_digit_upper(b as int / 16), hex_digit_upper(b as int % 16)]
    }
}

/// A byte string, percent-encoded byte by byte.
pub open spec fn percent_encode_bytes(bs: Seq<u8>) -> Seq<char>
    decreases bs.len(),
{
    if bs.len() == 0 {
        seq![]
    } else {
        percent_encode_bytes(bs.drop_last()) + percent_encode_byte(bs.last())
    }
}

/// A text, percent-encoded over its UTF-8 bytes.
pub open spec fn percent_encode(s: Seq<char>) -> Seq<char> {
    percent_encode_bytes(encode_utf8(s))
}

/// The `name=value` piece that an entry gives, or `None` where the entry is left
/// out: a value that is not a scalar, or whose text is empty.
pub open spec fn entry_piece(e: Entry) -> Option<Seq<char>> {
    match scalar_text(e.1) {
        Some(t) => if t.len() == 0 {
            None
        } else {
            Some(percent_encode(e.0) + seq!['='] + percent_encode(t))
        },
        None => None,
    }
}

/// The pieces of all entries that are kept, in entry order.
pub open spec fn query_pieces(es: Seq<Entry>) -> Seq<Seq<char>>
    decreases es.len(),
{
    if es.len() == 0 {
        seq![]
    } else {
        let ps = query_pieces(es.drop_last());
        match entry_piece(es.last()) {
            Some(p) => ps.push(p),
            None => ps,
        }
    }
}

/// The pieces joined by `&`.
pub open spec fn join_with_amp(ps: Seq<Seq<char>>) -> Seq<char>
    decreases ps.len(),
{
    if ps.len() == 0 {
        seq![]
    } else if ps.len() == 1 {
        ps[0]
    } else {
        join_with_amp(ps.drop_last()) + seq!['&'] + ps.last()
    }
}

/// The query string of an option mapping.
pub open spec fn query_of(es: Seq<Entry>) -> Seq<char> {
    join_with_amp(query_pieces(es))
}

/// `t` occurs in `s` as a run of consecutive characters.
pub open spec fn contains(s: Seq<char>, t: Seq<char>) -> bool {
    exists|i: int| 0 <= i && i + t.len() <= s.len() && #[trigger] s.subrange(i, i + t.len()) == t
}

/// Every text contains itself.
pub proof fn lemma_contains_self(s: Seq<char>)
    ensures
        contains(s, s),
{
    assert(s.subrange(0, 0 + s.len() as int) =~= s);
}

/// What one part of a concatenation contains, the whole contains.
pub proof fn lemma_contains_in_concat(a: Seq<char>, b: Seq<char>, t: Seq<char>)
    requires
        contains(a, t) || contains(b, t),
    ensures
        contains(a + b, t),
{
    if contains(a, t) {
        let i = choose|i: int|
            0 <= i && i + t.len() <= a.len() && #[trigger] a.subrange(i, i + t.len()) == t;
        assert((a + b).subrange(i, i + t.len()) =~= t);
    } else {
        let i = choose|i: int|
            0 <= i && i + t.len() <= b.len() && #[trigger] b.subrange(i, i + t.len()) == t;
        let j = i + a.len();
        assert((a + b).subrange(j, j + t.len()) =~= t);
    }
}

/// Containment is transitive.
pub proof fn lemma_contains_trans(s: Seq<char>, t: Seq<char>, u: Seq<char>)
    requires
        contains(s, t),
        contains(t, u),
    ensures
        contains(s, u),
{
    let i = choose|i: int|
        0 <= i && i + t.len() <= s.len() && #[trigger] s.subrange(i, i + t.len()) == t;
    let j = choose|j: int|
        0 <= j && j + u.len() <= t.len() && #[trigger] t.subrange(j, j + u.len()) == u;
    assert(s.subrange(i + j, i + j + u.len()) =~= u);
}

/// The UTF-8 form of a concatenation is the concatenation of the UTF-8 forms.
pub proof fn lemma_encode_utf8_concat(a: Seq<char>, b: Seq<char>)
    ensures
        encode_utf8(a + b) == encode_utf8(a) + encode_utf8(b),
    decreases a.len(),
{
    if a.len() > 0 {
        assert((a + b).drop_first() =~= a.drop_first() + b);
        assert((a + b)[0] == a[0]);
        lemma_encode_utf8_concat(a.drop_first(), b);
        assert(encode_utf8(a + b) =~= encode_utf8(a) + encode_utf8(b));
    } else {
        assert(a + b =~= b);
        assert(encode_utf8(a) + encode_utf8(b) =~= encode_utf8(b));
    }
}

/// Percent-encoding works byte by byte, so it distributes over concatenation.
pub proof fn lemma_percent_encode_bytes_concat(x: Seq<u8>, y: Seq<u8>)
    ensures
        percent_encode_bytes(x + y) == percent_encode_bytes(x) + percent_encode_bytes(y),
    decreases y.len(),
{
    if y.len() == 0 {
        assert(x + y =~= x);
        assert(percent_encode_bytes(x) + percent_encode_bytes(y) =~= percent_encode_bytes(x));
    } else {
        assert((x + y).drop_last() =~= x + y.drop_last());
        lemma_percent_encode_bytes_concat(x, y.drop_last());
        assert(percent_encode_bytes(x + y) =~= percent_encode_bytes(x) + percent_encode_bytes(y));
    }
}

/// A text that holds a space is percent-encoded with `%20` in it.
pub proof fn space_is_percent_encoded(s: Seq<char>, i: int)
    requires
        0 <= i < s.len(),
        s[i] == ' ',
    ensures
        contains(percent_encode(s), seq!['%', '2', '0']),
{
    let pre = s.subrange(0, i);
    let post = s.subrange(i + 1, s.len() as int);
    let sp = seq![' '];
    assert(s =~= pre + sp + post);
    lemma_encode_utf8_concat(pre + sp, post);
    lemma_encode_utf8_concat(pre, sp);
    assert(sp.drop_first() =~= Seq::<char>::empty());
    assert(sp[0] as u32 == 0x20u32);
    assert(encode_utf8(sp.drop_first()) =~= Seq::<u8>::empty());
    assert((0x20u32 & 0x7Fu32) == 0x20u32) by (bit_vector);
    assert(encode_scalar(0x20u32) =~= seq![0x20u8]);
    assert(encode_utf8(sp) =~= seq![0x20u8]);
    let bp = encode_utf8(pre);
    let bq = encode_utf8(post);
    lemma_percent_encode_bytes_concat(bp + seq![0x20u8], bq);
    lemma_percent_encode_bytes_concat(bp, seq![0x20u8]);
    assert(seq![0x20u8].drop_last() =~= Seq::<u8>::empty());
    assert(!is_unreserved(0x20u8));
    assert(hex_digit_upper(2) == '2');
    assert(hex_digit_upper(0) == '0');
    assert(percent_encode_byte(0x20u8) =~= seq!['%', '2', '0']);
    assert(seq![0x20u8].last() == 0x20u8);
    assert(percent_encode_bytes(Seq::<u8>::empty()) =~= Seq::<char>::empty());
    assert(percent_encode_bytes(seq![0x20u8]) =~= seq!['%', '2', '0']);
    let enc = seq!['%', '2', '0'];
    lemma_contains_self(enc);
    lemma_contains_in_concat(percent_encode_bytes(bp), enc, enc);
    lemma_contains_in_concat(percent_encode_bytes(bp) + enc, percent_encode_bytes(bq), enc);
}

/// The joined string holds each of its pieces.
pub proof fn lemma_join_contains(ps: Seq<Seq<char>>, k: int)
    requires
        0 <= k < ps.len(),
    ensures
        contains(join_with_amp(ps), ps[k]),
    decreases ps.len(),
{
    let p = ps[k];
    lemma_contains_self(p);
    if ps.len() == 1 {
    } else if k == ps.len() - 1 {
        lemma_contains_in_concat(join_with_amp(ps.drop_last()) + seq!['&'], p, p);
    } else {
        assert(ps.drop_last()[k] == p);
        lemma_join_contains(ps.drop_last(), k);
        lemma_contains_in_concat(join_with_amp(ps.drop_last()), seq!['&'], p);
        lemma_contains_in_concat(join_with_amp(ps.drop_last()) + seq!['&'], ps.last(), p);
    }
}

/// The query string holds the piece of each entry that is kept.
pub proof fn lemma_piece_in_query(es: Seq<Entry>, j: int)
    requires
        0 <= j < es.len(),
        entry_piece(es[j]) is Some,
    ensures
        contains(query_of(es), entry_piece(es[j])->Some_0),
{
    lemma_piece_listed(es, j);
    let k = choose|k: int|
        0 <= k < query_pieces(es).len() && #[trigger] query_pieces(es)[k] == entry_piece(
            es[j],
        )->Some_0;
    lemma_join_contains(query_pieces(es), k);
}

/// The piece of each entry that is kept is among the query pieces.
pub proof fn lemma_piece_listed(es: Seq<Entry>, j: int)
    requires
        0 <= j < es.len(),
        entry_piece(es[j]) is Some,
    ensures
        exists|k: int|
            0 <= k < query_pieces(es).len() && #[trigger] query_pieces(es)[k] == entry_piece(
                es[j],
            )->Some_0,
    decreases es.len(),
{
    let ps = query_pieces(es.drop_last());
    if j == es.len() - 1 {
        let k = ps.len() as int;
        assert(query_pieces(es)[k] == entry_piece(es[j])->Some_0);
    } else {
        assert(es.drop_last()[j] == es[j]);
        lemma_piece_listed(es.drop_last(), j);
        let k = choose|k: int|
            0 <= k < ps.len() && #[trigger] ps[k] == entry_piece(es[j])->Some_0;
        assert(query_pieces(es)[k] == ps[k]);
    }
}

/// `c` does not occur in `s`.
pub open spec fn free_of(s: Seq<char>, c: char) -> bool {
    forall|i: int| 0 <= i < s.len() ==> #[trigger] s[i] != c
}

/// Percent-encoding never writes `&`.
pub proof fn lemma_percent_encode_bytes_no_amp(bs: Seq<u8>)
    ensures
        free_of(percent_encode_bytes(bs), '&'),
    decreases bs.len(),
{
    if bs.len() > 0 {
        lemma_percent_encode_bytes_no_amp(bs.drop_last());
        let b = bs.last();
        let hex = seq!['0', '1', '2', '3', '4', '5', '6', '7', '8', '9', 'A', 'B', 'C', 'D', 'E', 'F'];
        assert(free_of(hex, '&'));
        assert(free_of(percent_encode_byte(b), '&')) by {
            if !is_unreserved(b) {
                assert(hex[b as int / 16] != '&');
                assert(hex[b as int % 16] != '&');
            } else {
                assert(b != 0x26u8);
            }
        }
        let p = percent_encode_bytes(bs.drop_last());
        let q = percent_encode_byte(b);
        assert forall|i: int| 0 <= i < (p + q).len() implies #[trigger] (p + q)[i] != '&' by {
            if i < p.len() {
                assert((p + q)[i] == p[i]);
            } else {
                assert((p + q)[i] == q[i - p.len()]);
            }
        }
    }
}

/// No piece of a query string holds `&`: the query string is its pieces with
/// an `&` between each two, so splitting it at `&` gives the pieces back.
pub proof fn query_pieces_hold_no_ampersand(es: Seq<Entry>)
    ensures
        forall|k: int| 0 <= k < query_pieces(es).len() ==> free_of(#[trigger] query_pieces(es)[k], '&'),
    decreases es.len(),
{
    if es.len() > 0 {
        query_pieces_hold_no_ampersand(es.drop_last());
        let e = es.last();
        if let Some(t) = scalar_text(e.1) {
            lemma_percent_encode_bytes_no_amp(encode_utf8(e.0));
            lemma_percent_encode_bytes_no_amp(encode_utf8(t));
            let a = percent_encode(e.0);
            let b = percent_encode(t);
            let p = a + seq!['='] + b;
            assert forall|i: int| 0 <= i < p.len() implies #[trigger] p[i] != '&' by {
                if i < a.len() {
                    assert(p[i] == a[i]);
                } else if i == a.len() {
                    assert(p[i] == '=');
                } else {
                    assert(p[i] == b[i - a.len() - 1]);
                }
            }
        }
        let ps = query_pieces(es.drop_last());
        assert forall|k: int| 0 <= k < query_pieces(es).len() implies free_of(
            #[trigger] query_pieces(es)[k],
            '&',
        ) by {
            if k < ps.len() {
                assert(query_pieces(es)[k] == ps[k]);
            }
        }
    }
}

/// Relies on urlencoding::encode: every byte of the UTF-8 form of the text,
/// but ASCII letters and digits and `-`, `.`, `_`, `~`, becomes `%` followed by
/// two uppercase hexadecimal digits.
#[verifier::external_body]
fn url_encode(s: &str) -> (r: String)
    ensures
        r@ == percent_encode(s@),
{
    urlencoding::encode(s).into_owned()
}

/// The decimal digit `d` as a one-character string.
fn digit_str(d: u64) -> (r: &'static str)
    requires
        d < 10,
    ensures
        r@ == seq![digit_char(d as int)],
{
    proof {
        reveal_strlit("0");
        reveal_strlit("1");
        reveal_strlit("2");
        reveal_strlit("3");
        reveal_strlit("4");
        reveal_strlit("5");
        reveal_strlit("6");
        reveal_strlit("7");
        reveal_strlit("8");
        reveal_strlit("9");
    }
    match d {
        0 => "0",
        1 => "1",
        2 => "2",
        3 => "3",
        4 => "4",
        5 => "5",
        6 => "6",
        7 => "7",
        8 => "8",
        _ => "9",
    }
}

/// The decimal form of `n`.
pub fn decimal_string(n: u64) -> (r: String)
    ensures
        r@ == decimal(n as nat),
    decreases n,
{
    if n < 10 {
        digit_str(n).to_string()
    } else {
        let mut s = decimal_string(n / 10);
        s.append(digit_str(n % 10));
        s
    }
}

/// The text of a number: integers in decimal, fractional numbers as they are held.
pub fn number_text(n: &Number) -> (r: String)
    ensures
        scalar_text(n@) == Some(r@),
{
    match n {
        Number::PosInt(v) => decimal_string(*v),
        Number::NegInt(v) => {
            if *v >= 0 {
                decimal_string(*v as u64)
            } else {
                let magnitude: u64 = (0i128 - *v as i128) as u64;
                let mut s = "-".to_string();
                proof {
                    reveal_strlit("-");
                }
                s.append(decimal_string(magnitude).as_str());
                s
            }
        },
        Number::Float(f) => f.as_str().to_string(),
    }
}

/// The text a value takes in a query string; `None` for a value that is not a scalar.
pub fn value_text(v: &OptionValue) -> (r: Option<String>)
    ensures
        match r {
            Some(t) => scalar_text(v@) == Some(t@),
            None => scalar_text(v@) is None,
        },
{
    match v {
        OptionValue::Str(s) => Some(s.clone()),
        OptionValue::Number(n) => Some(number_text(n)),
        OptionValue::Bool(b) => {
            proof {
                reveal_strlit("true");
                reveal_strlit("false");
            }
            if *b {
                Some("true".to_string())
            } else {
                Some("false".to_string())
            }
        },
        OptionValue::Other => None,
    }
}

/// Serialises an option mapping as a query string: in entry order, each entry
/// whose value is a scalar with non-empty text becomes `name=value`, both sides
/// percent-encoded, and the pieces are joined by `&`.
pub fn to_query_string(options: &RequestOptions) -> (r: String)
    ensures
        r@ == query_of(options@),
{
    let mut res = String::new();
    let mut first = true;
    let mut i: usize = 0;
    let n = options.len();
    while i < n
        invariant
            n == options@.len(),
            i <= n,
            res@ == join_with_amp(query_pieces(options@.take(i as int))),
            first == (query_pieces(options@.take(i as int)).len() == 0),
        decreases n - i,
    {
        let (k, v) = options.entry(i);
        let ghost before = options@.take(i as int);
        proof {
            assert(options@.take(i + 1).drop_last() =~= before);
        }
        match value_text(v) {
            Some(t) => {
                if !t.as_str().is_empty() {
                    let mut piece = url_encode(k.as_str());
                    proof {
                        reveal_strlit("=");
                        reveal_strlit("&");
                    }
                    piece.append("=");
                    piece.append(url_encode(t.as_str()).as_str());
                    proof {
                        let ps = query_pieces(before);
                        let e = options@[i as int];
                        assert(options@.take(i + 1).last() == e);
                        assert(entry_piece(e) == Some(piece@));
                        assert(query_pieces(options@.take(i + 1)) == ps.push(piece@));
                        assert(ps.push(piece@).drop_last() =~= ps);
                    }
                    if first {
                        res = piece;
                    } else {
                        res.append("&");
                        res.append(piece.as_str());
                    }
                    first = false;
                }
            },
            None => {},
        }
        proof {
            assert(options@.take(i + 1).last() == options@[i as int]);
        }
        i = i + 1;
    }
    proof {
        assert(options@.take(n as int) =~= options@);
    }
    res
}

} // verus!
