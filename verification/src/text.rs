use vstd::prelude::*;

verus! {

/// The character of a decimal digit.
pub open spec fn digit_char(d: nat) -> char {
    if d == 0 {
        '0'
    } else if d == 1 {
        '1'
    } else if d == 2 {
        '2'
    } else if d == 3 {
        '3'
    } else if d == 4 {
        '4'
    } else if d == 5 {
        '5'
    } else if d == 6 {
        '6'
    } else if d == 7 {
        '7'
    } else if d == 8 {
        '8'
    } else {
        '9'
    }
}

/// The decimal notation of `n`, without sign or leading zeros.
pub open spec fn decimal(n: nat) -> Seq<char>
    decreases n,
{
    if n < 10 {
        seq![digit_char(n)]
    } else {
        decimal(n / 10) + seq![digit_char(n % 10)]
    }
}

/// A decimal digit character.
pub open spec fn is_digit(c: char) -> bool {
    '0' <= c && c <= '9'
}

/// The number that a string of decimal digits denotes.
pub open spec fn digits_value(s: Seq<char>) -> nat
    decreases s.len(),
{
    if s.len() == 0 {
        0
    } else {
        digits_value(s.drop_last()) * 10 + (s.last() as nat - '0' as nat) as nat
    }
}

/// Law: the decimal notation of `n` is a non-empty string of digits, with
/// no leading zero unless `n` is zero, that denotes `n`.
pub proof fn lemma_decimal_denotes(n: nat)
    ensures
        decimal(n).len() > 0,
        forall|i: int| 0 <= i < decimal(n).len() ==> is_digit(#[trigger] decimal(n)[i]),
        decimal(n)[0] != '0' || n == 0,
        digits_value(decimal(n)) == n,
    decreases n,
{
    if n < 10 {
        assert(decimal(n) == seq![digit_char(n)]);
        let t = seq![digit_char(n)];
        assert(t.drop_last() =~= Seq::<char>::empty());
        assert(digits_value(t.drop_last()) == 0);
        assert((digit_char(n) as nat - '0' as nat) as nat == n);
        assert(digits_value(t) == n);
    } else {
        let q = n / 10;
        let d = n % 10;
        lemma_decimal_denotes(q);
        let s = decimal(q) + seq![digit_char(d)];
        assert(decimal(n) == s);
        assert(s.drop_last() =~= decimal(q));
        assert(s.last() == digit_char(d));
        assert((digit_char(d) as nat - '0' as nat) as nat == d);
        assert(q * 10 + d == n);
        assert(digits_value(s) == digits_value(decimal(q)) * 10 + d);
        assert forall|i: int| 0 <= i < s.len() implies is_digit(#[trigger] s[i]) by {
            if i < decimal(q).len() {
                assert(s[i] == decimal(q)[i]);
            }
        }
        assert(s[0] == decimal(q)[0]);
        assert(q != 0);
    }
}

/// `s` followed by spaces up to `width` characters, as `{:<width}` writes it.
pub open spec fn pad_right(s: Seq<char>, width: nat) -> Seq<char> {
    if s.len() >= width {
        s
    } else {
        s + Seq::new((width - s.len()) as nat, |_i: int| ' ')
    }
}

/// Law: padding keeps the text as it is at the front, makes it at least
/// `width` characters long and adds nothing but spaces, and only as many as
/// are missing.
pub proof fn lemma_pad_right_shape(s: Seq<char>, width: nat)
    ensures
        pad_right(s, width).len() == (if s.len() >= width {
            s.len()
        } else {
            width
        }),
        pad_right(s, width).take(s.len() as int) == s,
        forall|i: int| s.len() <= i < pad_right(s, width).len() ==> #[trigger] pad_right(s, width)[i] == ' ',
{
    assert(pad_right(s, width).take(s.len() as int) =~= s);
}

/// Law: writing a piece `count` times gives `count` copies of it one after
/// the other.
pub proof fn lemma_repeated_shape(piece: Seq<char>, count: nat)
    ensures
        repeated(piece, count).len() == count * piece.len(),
        forall|k: int, j: int|
            0 <= k < count && 0 <= j < piece.len() ==> #[trigger] repeated(piece, count)[k
                * piece.len() + j] == piece[j],
    decreases count,
{
    if count == 0 {
        assert(count * piece.len() == 0) by (nonlinear_arith)
            requires
                count == 0,
        ;
    } else {
        let c1 = (count - 1) as nat;
        lemma_repeated_shape(piece, c1);
        let r = repeated(piece, c1);
        assert(repeated(piece, count) == r + piece);
        assert(count * piece.len() == c1 * piece.len() + piece.len()) by (nonlinear_arith)
            requires
                c1 + 1 == count,
        ;
        assert forall|k: int, j: int|
            0 <= k < count && 0 <= j < piece.len() implies #[trigger] repeated(piece, count)[k
                * piece.len() + j] == piece[j] by {
            if k < c1 {
                assert(k * piece.len() + j < c1 * piece.len()) by (nonlinear_arith)
                    requires
                        0 <= k < c1,
                        0 <= j < piece.len(),
                ;
                assert((r + piece)[k * piece.len() + j] == r[k * piece.len() + j]);
            } else {
                assert(k == c1);
                assert((r + piece)[k * piece.len() + j] == piece[j]);
            }
        }
    }
}

/// `piece` written `count` times.
pub open spec fn repeated(piece: Seq<char>, count: nat) -> Seq<char>
    decreases count,
{
    if count == 0 {
        Seq::empty()
    } else {
        repeated(piece, (count - 1) as nat) + piece
    }
}

/// The texts of a vector of strings.
pub open spec fn texts(v: Seq<String>) -> Seq<Seq<char>> {
    v.map_values(|a: String| a@)
}

/// Pushing a string pushes its text.
pub proof fn lemma_texts_push(v: Seq<String>, a: String)
    ensures
        texts(v.push(a)) == texts(v).push(a@),
{
    assert(texts(v.push(a)) =~= texts(v).push(a@));
}

/// The texts of a slice of string slices.
pub open spec fn word_texts(args: Seq<&str>) -> Seq<Seq<char>> {
    args.map_values(|a: &str| a@)
}

/// The text of one decimal digit.
fn digit_text(d: u16) -> (s: &'static str)
    requires
        d < 10,
    ensures
        s@ == seq![digit_char(d as nat)],
{
    if d == 0 {
        proof {
            reveal_strlit("0");
        }
        "0"
    } else if d == 1 {
        proof {
            reveal_strlit("1");
        }
        "1"
    } else if d == 2 {
        proof {
            reveal_strlit("2");
        }
        "2"
    } else if d == 3 {
        proof {
            reveal_strlit("3");
        }
        "3"
    } else if d == 4 {
        proof {
            reveal_strlit("4");
        }
        "4"
    } else if d == 5 {
        proof {
            reveal_strlit("5");
        }
        "5"
    } else if d == 6 {
        proof {
            reveal_strlit("6");
        }
        "6"
    } else if d == 7 {
        proof {
            reveal_strlit("7");
        }
        "7"
    } else if d == 8 {
        proof {
            reveal_strlit("8");
        }
        "8"
    } else {
        proof {
            reveal_strlit("9");
        }
        "9"
    }
}

/// Appends the decimal notation of `n` to `out`.
pub fn push_decimal(out: &mut String, n: u16)
    ensures
        final(out)@ == old(out)@ + decimal(n as nat),
    decreases n,
{
    if n >= 10 {
        push_decimal(out, n / 10);
    }
    out.append(digit_text(n % 10));
    proof {
        assert(final(out)@ == old(out)@ + decimal(n as nat)) by {
            if n >= 10 {
                assert(decimal(n as nat) == decimal((n / 10) as nat) + seq![digit_char((n % 10) as nat)]);
            }
        }
    }
}

/// The decimal notation of `n`, as `n.to_string()` writes it.
pub fn decimal_string(n: u16) -> (s: String)
    ensures
        s@ == decimal(n as nat),
{
    let mut s = String::new();
    push_decimal(&mut s, n);
    proof {
        assert(Seq::<char>::empty() + decimal(n as nat) == decimal(n as nat));
    }
    s
}

/// `s` followed by spaces up to `width` characters.
pub fn pad_right_string(s: &str, width: usize) -> (r: String)
    ensures
        r@ == pad_right(s@, width as nat),
{
    let mut out = s.to_owned();
    let n = s.unicode_len();
    if n >= width {
        return out;
    }
    let mut k: usize = n;
    while k < width
        invariant
            n == s@.len(),
            n <= k <= width,
            out@ == s@ + Seq::new((k - n) as nat, |_i: int| ' '),
        decreases width - k,
    {
        proof {
            reveal_strlit(" ");
        }
        out.append(" ");
        proof {
            assert(s@ + Seq::new((k + 1 - n) as nat, |_i: int| ' ') == s@ + Seq::new(
                (k - n) as nat,
                |_i: int| ' ',
            ) + seq![' ']);
        }
        k = k + 1;
    }
    out
}

/// `piece` written `count` times.
pub fn repeat_text(piece: &str, count: usize) -> (r: String)
    ensures
        r@ == repeated(piece@, count as nat),
{
    let mut out = String::new();
    let mut k: usize = 0;
    while k < count
        invariant
            k <= count,
            out@ == repeated(piece@, k as nat),
        decreases count - k,
    {
        out.append(piece);
        k = k + 1;
    }
    out
}

} // verus!
