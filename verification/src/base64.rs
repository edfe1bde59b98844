use vstd::prelude::*;
use vstd::string::StringExecFns;

verus! {

/// The character that stands for six bits in the URL-safe alphabet of base 64.
#[verifier::opaque]
pub open spec fn symbol(value: nat) -> char {
    if value == 0 {
        'A'
    } else if value == 1 {
        'B'
    } else if value == 2 {
        'C'
    } else if value == 3 {
        'D'
    } else if value == 4 {
        'E'
    } else if value == 5 {
        'F'
    } else if value == 6 {
        'G'
    } else if value == 7 {
        'H'
    } else if value == 8 {
        'I'
    } else if value == 9 {
        'J'
    } else if value == 10 {
        'K'
    } else if value == 11 {
        'L'
    } else if value == 12 {
        'M'
    } else if value == 13 {
        'N'
    } else if value == 14 {
        'O'
    } else if value == 15 {
        'P'
    } else if value == 16 {
        'Q'
    } else if value == 17 {
        'R'
    } else if value == 18 {
        'S'
    } else if value == 19 {
        'T'
    } else if value == 20 {
        'U'
    } else if value == 21 {
        'V'
    } else if value == 22 {
        'W'
    } else if value == 23 {
        'X'
    } else if value == 24 {
        'Y'
    } else if value == 25 {
        'Z'
    } else if value == 26 {
        'a'
    } else if value == 27 {
        'b'
    } else if value == 28 {
        'c'
    } else if value == 29 {
        'd'
    } else if value == 30 {
        'e'
    } else if value == 31 {
        'f'
    } else if value == 32 {
        'g'
    } else if value == 33 {
        'h'
    } else if value == 34 {
        'i'
    } else if value == 35 {
        'j'
    } else if value == 36 {
        'k'
    } else if value == 37 {
        'l'
    } else if value == 38 {
        'm'
    } else if value == 39 {
        'n'
    } else if value == 40 {
        'o'
    } else if value == 41 {
        'p'
    } else if value == 42 {
        'q'
    } else if value == 43 {
        'r'
    } else if value == 44 {
        's'
    } else if value == 45 {
        't'
    } else if value == 46 {
        'u'
    } else if value == 47 {
        'v'
    } else if value == 48 {
        'w'
    } else if value == 49 {
        'x'
    } else if value == 50 {
        'y'
    } else if value == 51 {
        'z'
    } else if value == 52 {
        '0'
    } else if value == 53 {
        '1'
    } else if value == 54 {
        '2'
    } else if value == 55 {
        '3'
    } else if value == 56 {
        '4'
    } else if value == 57 {
        '5'
    } else if value == 58 {
        '6'
    } else if value == 59 {
        '7'
    } else if value == 60 {
        '8'
    } else if value == 61 {
        '9'
    } else if value == 62 {
        '-'
    } else {
        '_'
    }
}

/// The four characters of three bytes.
pub open spec fn quad(a: u8, b: u8, c: u8) -> Seq<char> {
    seq![
        symbol(a as nat / 4),
        symbol((a as nat % 4) * 16 + b as nat / 16),
        symbol((b as nat % 16) * 4 + c as nat / 64),
        symbol(c as nat % 64),
    ]
}

/// The characters of a rest of one byte or of two.
pub open spec fn rest(bytes: Seq<u8>) -> Seq<char> {
    if bytes.len() == 1 {
        seq![symbol(bytes[0] as nat / 4), symbol((bytes[0] as nat % 4) * 16)]
    } else if bytes.len() == 2 {
        seq![
            symbol(bytes[0] as nat / 4),
            symbol((bytes[0] as nat % 4) * 16 + bytes[1] as nat / 16),
            symbol((bytes[1] as nat % 16) * 4),
        ]
    } else {
        Seq::empty()
    }
}

/// Bytes in base 64 with the URL-safe alphabet and without padding: three bytes give
/// four characters, a rest of two bytes gives three, a rest of one byte gives two.
pub open spec fn base64url(bytes: Seq<u8>) -> Seq<char>
    decreases bytes.len(),
{
    if bytes.len() < 3 {
        rest(bytes)
    } else {
        quad(bytes[0], bytes[1], bytes[2]) + base64url(bytes.skip(3))
    }
}

/// Bytes that follow a whole number of triples are written after them as they would be
/// written alone.
pub proof fn lemma_base64url_append(front: Seq<u8>, back: Seq<u8>)
    requires
        front.len() % 3 == 0,
    ensures
        base64url(front + back) == base64url(front) + base64url(back),
    decreases front.len(),
{
    if front.len() == 0 {
        assert(front + back =~= back);
        assert(base64url(front) + base64url(back) =~= base64url(back));
    } else {
        let whole = front + back;
        lemma_base64url_append(front.skip(3), back);
        assert(whole.skip(3) =~= front.skip(3) + back);
        assert(whole[0] == front[0] && whole[1] == front[1] && whole[2] == front[2]);
        assert(base64url(whole) =~= base64url(front) + base64url(back));
    }
}

fn symbol_text(value: u8) -> (text: &'static str)
    requires
        value < 64,
    ensures
        text@ == seq![symbol(value as nat)],
{
    let text = match value {
        0 => "A",
        1 => "B",
        2 => "C",
        3 => "D",
        4 => "E",
        5 => "F",
        6 => "G",
        7 => "H",
        8 => "I",
        9 => "J",
        10 => "K",
        11 => "L",
        12 => "M",
        13 => "N",
        14 => "O",
        15 => "P",
        16 => "Q",
        17 => "R",
        18 => "S",
        19 => "T",
        20 => "U",
        21 => "V",
        22 => "W",
        23 => "X",
        24 => "Y",
        25 => "Z",
        26 => "a",
        27 => "b",
        28 => "c",
        29 => "d",
        30 => "e",
        31 => "f",
        32 => "g",
        33 => "h",
        34 => "i",
        35 => "j",
        36 => "k",
        37 => "l",
        38 => "m",
        39 => "n",
        40 => "o",
        41 => "p",
        42 => "q",
        43 => "r",
        44 => "s",
        45 => "t",
        46 => "u",
        47 => "v",
        48 => "w",
        49 => "x",
        50 => "y",
        51 => "z",
        52 => "0",
        53 => "1",
        54 => "2",
        55 => "3",
        56 => "4",
        57 => "5",
        58 => "6",
        59 => "7",
        60 => "8",
        61 => "9",
        62 => "-",
        _ => "_",
    };
    proof {
        reveal(symbol);
        reveal_strlit("A");
        reveal_strlit("B");
        reveal_strlit("C");
        reveal_strlit("D");
        reveal_strlit("E");
        reveal_strlit("F");
        reveal_strlit("G");
        reveal_strlit("H");
        reveal_strlit("I");
        reveal_strlit("J");
        reveal_strlit("K");
        reveal_strlit("L");
        reveal_strlit("M");
        reveal_strlit("N");
        reveal_strlit("O");
        reveal_strlit("P");
        reveal_strlit("Q");
        reveal_strlit("R");
        reveal_strlit("S");
        reveal_strlit("T");
        reveal_strlit("U");
        reveal_strlit("V");
        reveal_strlit("W");
        reveal_strlit("X");
        reveal_strlit("Y");
        reveal_strlit("Z");
        reveal_strlit("a");
        reveal_strlit("b");
        reveal_strlit("c");
        reveal_strlit("d");
        reveal_strlit("e");
        reveal_strlit("f");
        reveal_strlit("g");
        reveal_strlit("h");
        reveal_strlit("i");
        reveal_strlit("j");
        reveal_strlit("k");
        reveal_strlit("l");
        reveal_strlit("m");
        reveal_strlit("n");
        reveal_strlit("o");
        reveal_strlit("p");
        reveal_strlit("q");
        reveal_strlit("r");
        reveal_strlit("s");
        reveal_strlit("t");
        reveal_strlit("u");
        reveal_strlit("v");
        reveal_strlit("w");
        reveal_strlit("x");
        reveal_strlit("y");
        reveal_strlit("z");
        reveal_strlit("0");
        reveal_strlit("1");
        reveal_strlit("2");
        reveal_strlit("3");
        reveal_strlit("4");
        reveal_strlit("5");
        reveal_strlit("6");
        reveal_strlit("7");
        reveal_strlit("8");
        reveal_strlit("9");
        reveal_strlit("-");
        reveal_strlit("_");
        assert(text@.len() == 1);
        assert(text@[0] == symbol(value as nat));
        assert(text@ =~= seq![symbol(value as nat)]);
    }
    text
}

fn push_quad(text: &mut String, a: u8, b: u8, c: u8)
    ensures
        final(text)@ == old(text)@ + quad(a, b, c),
{
    text.append(symbol_text(a / 4));
    text.append(symbol_text((a % 4) * 16 + b / 16));
    text.append(symbol_text((b % 16) * 4 + c / 64));
    text.append(symbol_text(c % 64));
    assert(final(text)@ =~= old(text)@ + quad(a, b, c));
}

fn push_rest(text: &mut String, bytes: &[u8], from: usize)
    requires
        from <= bytes@.len(),
        bytes@.len() - from < 3,
    ensures
        final(text)@ == old(text)@ + rest(bytes@.skip(from as int)),
{
    let ghost left = bytes@.skip(from as int);
    if bytes.len() - from == 1 {
        let a = bytes[from];
        assert(left[0] == a);
        text.append(symbol_text(a / 4));
        text.append(symbol_text((a % 4) * 16));
        assert(final(text)@ =~= old(text)@ + rest(left));
    } else if bytes.len() - from == 2 {
        let a = bytes[from];
        let b = bytes[from + 1];
        assert(left[0] == a && left[1] == b);
        text.append(symbol_text(a / 4));
        text.append(symbol_text((a % 4) * 16 + b / 16));
        text.append(symbol_text((b % 16) * 4));
        assert(final(text)@ =~= old(text)@ + rest(left));
    } else {
        assert(final(text)@ =~= old(text)@ + rest(left));
    }
}

/// Appends bytes to a text in base 64, URL-safe and without padding.
pub fn push_base64url(text: &mut String, bytes: &[u8])
    ensures
        final(text)@ == old(text)@ + base64url(bytes@),
{
    let ghost before = text@;
    let len = bytes.len();
    let mut i: usize = 0;
    assert(bytes@.take(0) =~= Seq::empty());
    assert(before + base64url(bytes@.take(0)) =~= before);
    while len - i >= 3
        invariant
            len == bytes@.len(),
            i <= len,
            i % 3 == 0,
            text@ == before + base64url(bytes@.take(i as int)),
        decreases len - i,
    {
        let a = bytes[i];
        let b = bytes[i + 1];
        let c = bytes[i + 2];
        proof {
            let triple = seq![a, b, c];
            assert(bytes@.take(i + 3) =~= bytes@.take(i as int) + triple);
            lemma_base64url_append(bytes@.take(i as int), triple);
            assert(triple.skip(3) =~= Seq::empty());
            assert(base64url(triple) =~= quad(a, b, c)) by {
                reveal_with_fuel(base64url, 2);
            }
        }
        push_quad(text, a, b, c);
        assert(text@ =~= before + base64url(bytes@.take(i + 3)));
        i += 3;
    }
    proof {
        assert(bytes@ =~= bytes@.take(i as int) + bytes@.skip(i as int));
        lemma_base64url_append(bytes@.take(i as int), bytes@.skip(i as int));
    }
    push_rest(text, bytes, i);
    assert(final(text)@ =~= before + base64url(bytes@));
}

} // verus!
