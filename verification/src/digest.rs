use vstd::prelude::*;

verus! {

/// The MD5 digest of the UTF-8 bytes of `text`.
pub uninterp spec fn md5_of_text(text: Seq<char>) -> Seq<u8>;

/// `md5::compute` on the UTF-8 bytes of `text`, as its sixteen digest bytes.
/// The contract names the digest (a function of the text alone) and says
/// nothing more of it.
#[verifier::external_body]
fn md5_digest(text: &str) -> (d: [u8; 16])
    ensures
        d@ == md5_of_text(text@),
{
    md5::compute(text).0
}

/// The lowercase hexadecimal digit of `d`.
pub open spec fn hex_char(d: nat) -> char {
    if d < 10 {
        (48 + d) as char
    } else {
        (87 + d) as char
    }
}

/// Two lowercase hexadecimal digits per byte, most significant first.
pub open spec fn lower_hex(bytes: Seq<u8>) -> Seq<char>
    decreases bytes.len(),
{
    if bytes.len() == 0 {
        Seq::empty()
    } else {
        lower_hex(bytes.drop_last()) + seq![
            hex_char((bytes.last() / 16) as nat),
            hex_char((bytes.last() % 16) as nat),
        ]
    }
}

/// The hexadecimal text of `bytes` has two digits per byte.
pub proof fn lemma_lower_hex_len(bytes: Seq<u8>)
    ensures
        lower_hex(bytes).len() == 2 * bytes.len(),
    decreases bytes.len(),
{
    if bytes.len() > 0 {
        lemma_lower_hex_len(bytes.drop_last());
    }
}

fn hex_digit(d: u8) -> (s: &'static str)
    requires
        d < 16,
    ensures
        s@ == seq![hex_char(d as nat)],
{
    proof {
        reveal_strlit("0");
        reveal_strlit("1");
        reveal_strlit("2");
        reveal_strlit("3");
        reveal_strlit("4");
        reveal_strlit("5");
        reveal_strlit("6");
        reveal_strlit("7");
        reveal_strlit("8");
        reveal_strlit("9");
        reveal_strlit("a");
        reveal_strlit("b");
        reveal_strlit("c");
        reveal_strlit("d");
        reveal_strlit("e");
        reveal_strlit("f");
    }
    match d {
        0 => "0",
        1 => "1",
        2 => "2",
        3 => "3",
        4 => "4",
        5 => "5",
        6 => "6",
        7 => "7",
        8 => "8",
        9 => "9",
        10 => "a",
        11 => "b",
        12 => "c",
        13 => "d",
        14 => "e",
        _ => "f",
    }
}

/// The bytes as lowercase hexadecimal text (see [`lower_hex`]).
pub fn lower_hex_string(bytes: &[u8]) -> (s: String)
    ensures
        s@ == lower_hex(bytes@),
{
    let mut s = String::new();
    let mut k: usize = 0;
    while k < bytes.len()
        invariant
            k <= bytes@.len(),
            s@ == lower_hex(bytes@.take(k as int)),
        decreases bytes@.len() - k,
    {
        let b = bytes[k];
        s.append(hex_digit(b / 16));
        s.append(hex_digit(b % 16));
        proof {
            assert(bytes@.take(k + 1).drop_last() =~= bytes@.take(k as int));
            assert(s@ =~= lower_hex(bytes@.take(k + 1)));
        }
        k += 1;
    }
    proof {
        assert(bytes@.take(bytes@.len() as int) =~= bytes@);
    }
    s
}

/// The MD5 digest of `text` as 32 lowercase hexadecimal digits.
pub fn md5_hex(text: &str) -> (s: String)
    ensures
        s@ == lower_hex(md5_of_text(text@)),
        s@.len() == 32,
{
    let d = md5_digest(text);
    proof {
        lemma_lower_hex_len(d@);
    }
    lower_hex_string(&d)
}

} // verus!
