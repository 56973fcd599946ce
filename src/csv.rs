use vstd::prelude::*;

verus! {

/// A character that forces a CSV field to be quoted.
pub open spec fn is_csv_special(c: char) -> bool {
    c == ',' || c == '"' || c == '\n' || c == '\r'
}

pub open spec fn needs_quoting(s: Seq<char>) -> bool {
    exists|i: int| 0 <= i < s.len() && is_csv_special(#[trigger] s[i])
}

/// `s` with every double quote doubled.
pub open spec fn double_quotes(s: Seq<char>) -> Seq<char>
    decreases s.len(),
{
    if s.len() == 0 {
        Seq::empty()
    } else {
        let c = s.last();
        double_quotes(s.drop_last()) + if c == '"' {
            seq!['"', '"']
        } else {
            seq![c]
        }
    }
}

/// A CSV field as RFC 4180 writes it: fields holding a comma, a quote or a line
/// break are quoted, with inner quotes doubled; others stay as they are.
pub open spec fn csv_field(s: Seq<char>) -> Seq<char> {
    if needs_quoting(s) {
        seq!['"'] + double_quotes(s) + seq!['"']
    } else {
        s
    }
}

/// Escapes one field for CSV output (RFC 4180).
pub fn escape_csv_field(s: &str) -> (r: String)
    ensures
        r@ == csv_field(s@),
{
    let n = s.unicode_len();
    let mut special = false;
    let mut i: usize = 0;
    while i < n
        invariant
            i <= n,
            n == s@.len(),
            special <==> exists|j: int| 0 <= j < i && is_csv_special(#[trigger] s@[j]),
        decreases n - i,
    {
        let c = s.get_char(i);
        if c == ',' || c == '"' || c == '\n' || c == '\r' {
            special = true;
        }
        i = i + 1;
    }
    if !special {
        return String::from_str(s);
    }
    let mut out = String::from_str("\"");
    proof {
        reveal_strlit("\"");
    }
    let mut k: usize = 0;
    while k < n
        invariant
            k <= n,
            n == s@.len(),
            out@ == seq!['"'] + double_quotes(s@.subrange(0, k as int)),
        decreases n - k,
    {
        let piece = s.substring_char(k, k + 1);
        out.append(piece);
        if s.get_char(k) == '"' {
            out.append(piece);
        }
        proof {
            let t = s@.subrange(0, k + 1);
            assert(t.drop_last() =~= s@.subrange(0, k as int));
            assert(t.last() == s@[k as int]);
        }
        k = k + 1;
        proof {
            assert(out@ =~= seq!['"'] + double_quotes(s@.subrange(0, k as int)));
        }
    }
    out.append("\"");
    proof {
        assert(s@.subrange(0, n as int) =~= s@);
    }
    out
}

} // verus!
