use vstd::prelude::*;
use vstd::string::*;

verus! {

/// Characters written with a two-character escape.
pub open spec fn is_named_escape(c: char) -> bool {
    c == '"' || c == '\\' || c == '\u{8}' || c == '\u{9}' || c == '\u{a}' || c == '\u{c}'
        || c == '\u{d}'
}

/// The letter standing after the backslash for a named escape.
pub open spec fn named_code(c: char) -> char {
    if c == '"' { '"' }
    else if c == '\\' { '\\' }
    else if c == '\u{8}' { 'b' }
    else if c == '\u{9}' { 't' }
    else if c == '\u{a}' { 'n' }
    else if c == '\u{c}' { 'f' }
    else { 'r' }
}

pub open spec fn is_named_code(c: char) -> bool {
    c == '"' || c == '\\' || c == 'b' || c == 't' || c == 'n' || c == 'f' || c == 'r'
}

/// The character a named escape letter stands for.
pub open spec fn named_decode(c: char) -> char {
    if c == '"' { '"' }
    else if c == '\\' { '\\' }
    else if c == 'b' { '\u{8}' }
    else if c == 't' { '\u{9}' }
    else if c == 'n' { '\u{a}' }
    else if c == 'f' { '\u{c}' }
    else { '\u{d}' }
}

/// Control characters that have no named escape; they are written `\u00..`.
pub open spec fn is_u_escaped(c: char) -> bool {
    c == '\u{0}' || c == '\u{1}' || c == '\u{2}' || c == '\u{3}' || c == '\u{4}' || c == '\u{5}'
        || c == '\u{6}' || c == '\u{7}' || c == '\u{b}' || c == '\u{e}' || c == '\u{f}'
        || c == '\u{10}' || c == '\u{11}' || c == '\u{12}' || c == '\u{13}' || c == '\u{14}'
        || c == '\u{15}' || c == '\u{16}' || c == '\u{17}' || c == '\u{18}' || c == '\u{19}'
        || c == '\u{1a}' || c == '\u{1b}' || c == '\u{1c}' || c == '\u{1d}' || c == '\u{1e}'
        || c == '\u{1f}'
}

/// The two hex digits written after `\u00` for such a character.
pub open spec fn u_code(c: char) -> Seq<char> {
    if c == '\u{0}' { seq!['0', '0'] }
    else if c == '\u{1}' { seq!['0', '1'] }
    else if c == '\u{2}' { seq!['0', '2'] }
    else if c == '\u{3}' { seq!['0', '3'] }
    else if c == '\u{4}' { seq!['0', '4'] }
    else if c == '\u{5}' { seq!['0', '5'] }
    else if c == '\u{6}' { seq!['0', '6'] }
    else if c == '\u{7}' { seq!['0', '7'] }
    else if c == '\u{b}' { seq!['0', 'b'] }
    else if c == '\u{e}' { seq!['0', 'e'] }
    else if c == '\u{f}' { seq!['0', 'f'] }
    else if c == '\u{10}' { seq!['1', '0'] }
    else if c == '\u{11}' { seq!['1', '1'] }
    else if c == '\u{12}' { seq!['1', '2'] }
    else if c == '\u{13}' { seq!['1', '3'] }
    else if c == '\u{14}' { seq!['1', '4'] }
    else if c == '\u{15}' { seq!['1', '5'] }
    else if c == '\u{16}' { seq!['1', '6'] }
    else if c == '\u{17}' { seq!['1', '7'] }
    else if c == '\u{18}' { seq!['1', '8'] }
    else if c == '\u{19}' { seq!['1', '9'] }
    else if c == '\u{1a}' { seq!['1', 'a'] }
    else if c == '\u{1b}' { seq!['1', 'b'] }
    else if c == '\u{1c}' { seq!['1', 'c'] }
    else if c == '\u{1d}' { seq!['1', 'd'] }
    else if c == '\u{1e}' { seq!['1', 'e'] }
    else { seq!['1', 'f'] }
}

/// The character a pair of hex digits after `\u00` stands for, when the
/// pair is one this format writes.
pub open spec fn u_unescape(h1: char, h2: char) -> Option<char> {
    if h1 == '0' && h2 == '0' { Some('\u{0}') }
    else if h1 == '0' && h2 == '1' { Some('\u{1}') }
    else if h1 == '0' && h2 == '2' { Some('\u{2}') }
    else if h1 == '0' && h2 == '3' { Some('\u{3}') }
    else if h1 == '0' && h2 == '4' { Some('\u{4}') }
    else if h1 == '0' && h2 == '5' { Some('\u{5}') }
    else if h1 == '0' && h2 == '6' { Some('\u{6}') }
    else if h1 == '0' && h2 == '7' { Some('\u{7}') }
    else if h1 == '0' && h2 == 'b' { Some('\u{b}') }
    else if h1 == '0' && h2 == 'e' { Some('\u{e}') }
    else if h1 == '0' && h2 == 'f' { Some('\u{f}') }
    else if h1 == '1' && h2 == '0' { Some('\u{10}') }
    else if h1 == '1' && h2 == '1' { Some('\u{11}') }
    else if h1 == '1' && h2 == '2' { Some('\u{12}') }
    else if h1 == '1' && h2 == '3' { Some('\u{13}') }
    else if h1 == '1' && h2 == '4' { Some('\u{14}') }
    else if h1 == '1' && h2 == '5' { Some('\u{15}') }
    else if h1 == '1' && h2 == '6' { Some('\u{16}') }
    else if h1 == '1' && h2 == '7' { Some('\u{17}') }
    else if h1 == '1' && h2 == '8' { Some('\u{18}') }
    else if h1 == '1' && h2 == '9' { Some('\u{19}') }
    else if h1 == '1' && h2 == 'a' { Some('\u{1a}') }
    else if h1 == '1' && h2 == 'b' { Some('\u{1b}') }
    else if h1 == '1' && h2 == 'c' { Some('\u{1c}') }
    else if h1 == '1' && h2 == 'd' { Some('\u{1d}') }
    else if h1 == '1' && h2 == 'e' { Some('\u{1e}') }
    else if h1 == '1' && h2 == 'f' { Some('\u{1f}') }
    else { None }
}

/// How one character is written inside a quoted string.
pub open spec fn escape_char(c: char) -> Seq<char> {
    if is_named_escape(c) {
        seq!['\\', named_code(c)]
    } else if is_u_escaped(c) {
        seq!['\\', 'u', '0', '0'] + u_code(c)
    } else {
        seq![c]
    }
}

/// How a whole string is written inside quotes.
pub open spec fn escape(s: Seq<char>) -> Seq<char>
    decreases s.len(),
{
    if s.len() == 0 {
        Seq::empty()
    } else {
        escape_char(s[0]) + escape(s.skip(1))
    }
}

/// Reads a quoted string's body up to and over its closing quote, undoing
/// the escapes; yields the content and what follows the closing quote.
pub open spec fn parse_string_body(s: Seq<char>) -> Option<(Seq<char>, Seq<char>)>
    decreases s.len(),
{
    if s.len() == 0 {
        None
    } else if s[0] == '"' {
        Some((Seq::empty(), s.skip(1)))
    } else if s[0] == '\\' {
        if s.len() < 2 {
            None
        } else if is_named_code(s[1]) {
            match parse_string_body(s.skip(2)) {
                Some(p) => Some((seq![named_decode(s[1])] + p.0, p.1)),
                None => None,
            }
        } else if s[1] == 'u' {
            if s.len() < 6 {
                None
            } else if s[2] == '0' && s[3] == '0' && u_unescape(s[4], s[5]) is Some {
                match parse_string_body(s.skip(6)) {
                    Some(p) => Some((seq![u_unescape(s[4], s[5]).unwrap()] + p.0, p.1)),
                    None => None,
                }
            } else {
                None
            }
        } else {
            None
        }
    } else if is_named_escape(s[0]) || is_u_escaped(s[0]) {
        None
    } else {
        match parse_string_body(s.skip(1)) {
            Some(p) => Some((seq![s[0]] + p.0, p.1)),
            None => None,
        }
    }
}

/// Whatever a string body parse leaves over is strictly shorter than what
/// it was given.
pub proof fn lemma_parse_string_body_shrinks(s: Seq<char>)
    ensures
        parse_string_body(s) matches Some(p) ==> p.1.len() < s.len(),
    decreases s.len(),
{
    if s.len() == 0 {
    } else if s[0] == '"' {
    } else if s[0] == '\\' {
        if s.len() >= 2 && is_named_code(s[1]) {
            lemma_parse_string_body_shrinks(s.skip(2));
        } else if s.len() >= 6 && s[1] == 'u' {
            lemma_parse_string_body_shrinks(s.skip(6));
        }
    } else if is_named_escape(s[0]) || is_u_escaped(s[0]) {
    } else {
        lemma_parse_string_body_shrinks(s.skip(1));
    }
}

/// Escaping distributes over concatenation.
pub proof fn lemma_escape_concat(a: Seq<char>, b: Seq<char>)
    ensures
        escape(a + b) == escape(a) + escape(b),
    decreases a.len(),
{
    if a.len() == 0 {
        assert(a + b =~= b);
        assert(escape(a) + escape(b) =~= escape(b));
    } else {
        assert((a + b).skip(1) =~= a.skip(1) + b);
        lemma_escape_concat(a.skip(1), b);
        assert((a + b)[0] == a[0]);
        assert(escape_char(a[0]) + (escape(a.skip(1)) + escape(b)) =~= (escape_char(a[0])
            + escape(a.skip(1))) + escape(b));
    }
}

/// An escaped string followed by its closing quote parses back to itself.
pub proof fn lemma_parse_escape_round_trip(s: Seq<char>, r: Seq<char>)
    ensures
        parse_string_body(escape(s) + seq!['"'] + r) == Some((s, r)),
    decreases s.len(),
{
    let total = escape(s) + seq!['"'] + r;
    if s.len() == 0 {
        assert(total =~= seq!['"'] + r);
        assert(total[0] == '"');
        assert(total.skip(1) =~= r);
    } else {
        let c = s[0];
        let rest = escape(s.skip(1)) + seq!['"'] + r;
        lemma_parse_escape_round_trip(s.skip(1), r);
        assert(total =~= escape_char(c) + rest);
        if is_named_escape(c) {
            assert(total[0] == '\\');
            assert(total[1] == named_code(c));
            assert(is_named_code(named_code(c)));
            assert(named_decode(named_code(c)) == c);
            assert(total.skip(2) =~= rest);
            assert(seq![c] + s.skip(1) =~= s);
        } else if is_u_escaped(c) {
            assert(total[0] == '\\');
            assert(total[1] == 'u');
            assert(total[2] == '0');
            assert(total[3] == '0');
            assert(total[4] == u_code(c)[0]);
            assert(total[5] == u_code(c)[1]);
            assert(u_unescape(u_code(c)[0], u_code(c)[1]) == Some(c));
            assert(total.skip(6) =~= rest);
            assert(seq![c] + s.skip(1) =~= s);
        } else {
            assert(total[0] == c);
            assert(c != '"' && c != '\\');
            assert(total.skip(1) =~= rest);
            assert(seq![c] + s.skip(1) =~= s);
        }
    }
}

/// Appends the escaped form of `c` to `out`.
fn push_escaped(out: &mut Vec<char>, c: char)
    ensures
        final(out)@ == old(out)@ + escape_char(c),
{
    match c {
        '"' => {
            out.push('\\');
            out.push('"');
        },
        '\\' => {
            out.push('\\');
            out.push('\\');
        },
        '\u{8}' => {
            out.push('\\');
            out.push('b');
        },
        '\u{9}' => {
            out.push('\\');
            out.push('t');
        },
        '\u{a}' => {
            out.push('\\');
            out.push('n');
        },
        '\u{c}' => {
            out.push('\\');
            out.push('f');
        },
        '\u{d}' => {
            out.push('\\');
            out.push('r');
        },
        '\u{0}' | '\u{1}' | '\u{2}' | '\u{3}' | '\u{4}' | '\u{5}' | '\u{6}' | '\u{7}' | '\u{b}'
            | '\u{e}' | '\u{f}' | '\u{10}' | '\u{11}' | '\u{12}' | '\u{13}' | '\u{14}'
            | '\u{15}' | '\u{16}' | '\u{17}' | '\u{18}' | '\u{19}' | '\u{1a}' | '\u{1b}'
            | '\u{1c}' | '\u{1d}' | '\u{1e}' | '\u{1f}' => {
            out.push('\\');
            out.push('u');
            out.push('0');
            out.push('0');
            let d1: char = if (c as u32) < 16 { '0' } else { '1' };
            let d2: char = match (c as u32) % 16 {
                0 => '0',
                1 => '1',
                2 => '2',
                3 => '3',
                4 => '4',
                5 => '5',
                6 => '6',
                7 => '7',
                8 => '8',
                9 => '9',
                10 => 'a',
                11 => 'b',
                12 => 'c',
                13 => 'd',
                14 => 'e',
                _ => 'f',
            };
            out.push(d1);
            out.push(d2);
            proof {
                assert(seq![d1, d2] =~= u_code(c));
            }
        },
        _ => {
            out.push(c);
        },
    }
    proof {
        assert(final(out)@ =~= old(out)@ + escape_char(c));
    }
}

/// Appends the escaped form of a whole string to `out`.
pub fn append_escaped(out: &mut Vec<char>, s: &Vec<char>)
    ensures
        final(out)@ == old(out)@ + escape(s@),
{
    let mut m: usize = 0;
    while m < s.len()
        invariant
            0 <= m <= s@.len(),
            out@ == old(out)@ + escape(s@.take(m as int)),
        decreases s@.len() - m,
    {
        proof {
            assert(s@.take(m + 1) =~= s@.take(m as int) + seq![s@[m as int]]);
            lemma_escape_concat(s@.take(m as int), seq![s@[m as int]]);
            let one = seq![s@[m as int]];
            assert(one.skip(1) =~= Seq::<char>::empty());
            assert(escape(Seq::<char>::empty()) == Seq::<char>::empty());
            assert(escape(one) =~= escape_char(s@[m as int]) + escape(Seq::<char>::empty()));
            assert(escape(one) =~= escape_char(s@[m as int]));
        }
        push_escaped(out, s[m]);
        proof {
            assert(out@ =~= old(out)@ + escape(s@.take(m + 1)));
        }
        m = m + 1;
    }
    proof {
        assert(s@.take(s@.len() as int) =~= s@);
    }
}

fn u_unescape_exec(h1: char, h2: char) -> (r: Option<char>)
    ensures
        r == u_unescape(h1, h2),
{
    match (h1, h2) {
        ('0', '0') => Some('\u{0}'),
        ('0', '1') => Some('\u{1}'),
        ('0', '2') => Some('\u{2}'),
        ('0', '3') => Some('\u{3}'),
        ('0', '4') => Some('\u{4}'),
        ('0', '5') => Some('\u{5}'),
        ('0', '6') => Some('\u{6}'),
        ('0', '7') => Some('\u{7}'),
        ('0', 'b') => Some('\u{b}'),
        ('0', 'e') => Some('\u{e}'),
        ('0', 'f') => Some('\u{f}'),
        ('1', '0') => Some('\u{10}'),
        ('1', '1') => Some('\u{11}'),
        ('1', '2') => Some('\u{12}'),
        ('1', '3') => Some('\u{13}'),
        ('1', '4') => Some('\u{14}'),
        ('1', '5') => Some('\u{15}'),
        ('1', '6') => Some('\u{16}'),
        ('1', '7') => Some('\u{17}'),
        ('1', '8') => Some('\u{18}'),
        ('1', '9') => Some('\u{19}'),
        ('1', 'a') => Some('\u{1a}'),
        ('1', 'b') => Some('\u{1b}'),
        ('1', 'c') => Some('\u{1c}'),
        ('1', 'd') => Some('\u{1d}'),
        ('1', 'e') => Some('\u{1e}'),
        ('1', 'f') => Some('\u{1f}'),
        _ => None,
    }
}

/// Whether `c` is a control character that is written as `\u00..`.
fn is_raw_control(c: char) -> (r: bool)
    ensures
        r == is_u_escaped(c),
{
    match c {
        '\u{0}' | '\u{1}' | '\u{2}' | '\u{3}' | '\u{4}' | '\u{5}' | '\u{6}' | '\u{7}' | '\u{b}'
            | '\u{e}' | '\u{f}' | '\u{10}' | '\u{11}' | '\u{12}' | '\u{13}' | '\u{14}'
            | '\u{15}' | '\u{16}' | '\u{17}' | '\u{18}' | '\u{19}' | '\u{1a}' | '\u{1b}'
            | '\u{1c}' | '\u{1d}' | '\u{1e}' | '\u{1f}' => true,
        _ => false,
    }
}

/// Reads a quoted string's body starting at `i` (just past the opening
/// quote); `Some((c, j))` holds the unescaped content, with `j` just past
/// the closing quote.
pub fn parse_string_at(v: &Vec<char>, i: usize) -> (r: Option<(Vec<char>, usize)>)
    requires
        i <= v@.len(),
    ensures
        match r {
            Some(p) => {
                &&& i < p.1 <= v@.len()
                &&& parse_string_body(v@.skip(i as int)) == Some((p.0@, v@.skip(p.1 as int)))
            },
            None => parse_string_body(v@.skip(i as int)) is None,
        },
    decreases v@.len() - i,
{
    let ghost s = v@.skip(i as int);
    let n = v.len();
    if i == n {
        return None;
    }
    let c = v[i];
    proof {
        assert(s[0] == v@[i as int]);
    }
    if c == '"' {
        proof {
            assert(s.skip(1) =~= v@.skip(i + 1));
        }
        return Some((Vec::new(), i + 1));
    }
    if c == '\\' {
        if n - i < 2 {
            proof {
                assert(s.len() < 2);
            }
            return None;
        }
        let e = v[i + 1];
        proof {
            assert(s[1] == v@[i + 1]);
        }
        if e == '"' || e == '\\' || e == 'b' || e == 't' || e == 'n' || e == 'f' || e == 'r' {
            let decoded: char = if e == '"' { '"' } else if e == '\\' { '\\' } else if e == 'b' {
                '\u{8}'
            } else if e == 't' { '\u{9}' } else if e == 'n' { '\u{a}' } else if e == 'f' {
                '\u{c}'
            } else { '\u{d}' };
            proof {
                assert(decoded == named_decode(s[1]));
                assert(s.skip(2) =~= v@.skip(i + 2));
            }
            match parse_string_at(v, i + 2) {
                Some(p) => {
                    let (mut content, j) = p;
                    content.insert(0, decoded);
                    proof {
                        assert(content@ =~= seq![named_decode(s[1])] + parse_string_body(
                            s.skip(2),
                        ).unwrap().0);
                    }
                    Some((content, j))
                },
                None => None,
            }
        } else if e == 'u' {
            if n - i < 6 {
                proof {
                    assert(s.len() < 6);
                }
                return None;
            }
            let h0 = v[i + 2];
            let h1 = v[i + 3];
            proof {
                assert(s[2] == v@[i + 2]);
                assert(s[3] == v@[i + 3]);
                assert(s[4] == v@[i + 4]);
                assert(s[5] == v@[i + 5]);
            }
            if !(h0 == '0' && h1 == '0') {
                return None;
            }
            let decoded = match u_unescape_exec(v[i + 4], v[i + 5]) {
                Some(d) => d,
                None => {
                    return None;
                },
            };
            proof {
                assert(s.skip(6) =~= v@.skip(i + 6));
            }
            match parse_string_at(v, i + 6) {
                Some(p) => {
                    let (mut content, j) = p;
                    content.insert(0, decoded);
                    proof {
                        assert(content@ =~= seq![u_unescape(s[4], s[5]).unwrap()]
                            + parse_string_body(s.skip(6)).unwrap().0);
                    }
                    Some((content, j))
                },
                None => None,
            }
        } else {
            None
        }
    } else if c == '\u{8}' || c == '\u{9}' || c == '\u{a}' || c == '\u{c}' || c == '\u{d}'
        || is_raw_control(c) {
        None
    } else {
        proof {
            assert(s.skip(1) =~= v@.skip(i + 1));
        }
        match parse_string_at(v, i + 1) {
            Some(p) => {
                let (mut content, j) = p;
                content.insert(0, c);
                proof {
                    assert(content@ =~= seq![s[0]] + parse_string_body(s.skip(1)).unwrap().0);
                }
                Some((content, j))
            },
            None => None,
        }
    }
}

/// The characters of a string slice, in order.
pub fn str_to_chars(s: &str) -> (r: Vec<char>)
    ensures
        r@ == s@,
{
    let n = s.unicode_len();
    let mut r: Vec<char> = Vec::new();
    let mut m: usize = 0;
    while m < n
        invariant
            0 <= m <= n,
            n as nat == s@.len(),
            r@ == s@.take(m as int),
        decreases n - m,
    {
        r.push(s.get_char(m));
        proof {
            assert(r@ =~= s@.take(m + 1));
        }
        m = m + 1;
    }
    proof {
        assert(s@.take(n as int) =~= s@);
    }
    r
}

/// Relies on `String::from_iter` over characters: collecting characters
/// builds the string whose characters they are, in order.
#[verifier::external_body]
pub fn chars_to_string(v: &Vec<char>) -> (r: String)
    ensures
        r@ == v@,
{
    v.iter().collect()
}

} // verus!
