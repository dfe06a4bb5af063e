use vstd::prelude::*;

verus! {

/// Assumed of the standard library's `String::push`, and not proved here: it
/// appends `ch` to the end of the string and leaves the characters that were
/// there before as they are.
pub assume_specification[ String::push ](s: &mut String, ch: char)
    ensures
        final(s)@ == old(s)@.push(ch),
;

/// The characters of `s`, in order.
pub(crate) fn chars_of(s: &str) -> (v: Vec<char>)
    ensures
        v@ == s@,
{
    let mut v: Vec<char> = Vec::new();
    for c in it: s.chars()
        invariant
            v@ == it.seq().take(it.index()),
    {
        v.push(c);
    }
    v
}

/// Whether two strings hold the same characters.
pub(crate) fn same_text(a: &str, b: &str) -> (same: bool)
    ensures
        same == (a@ == b@),
{
    let n: usize = a.unicode_len();
    if n != b.unicode_len() {
        return false;
    }
    let mut i: usize = 0;
    while i < n
        invariant
            i <= n,
            n == a@.len(),
            n == b@.len(),
            forall|j: int| 0 <= j < i ==> a@[j] == b@[j],
        decreases n - i,
    {
        if a.get_char(i) != b.get_char(i) {
            return false;
        }
        i = i + 1;
    }
    assert(a@ =~= b@);
    true
}

/// The string that holds `chars[from..to]`.
pub(crate) fn string_of(chars: &Vec<char>, from: usize, to: usize) -> (s: String)
    requires
        from <= to <= chars.len(),
    ensures
        s@ == chars@.subrange(from as int, to as int),
{
    let mut s = String::new();
    let mut i: usize = from;
    while i < to
        invariant
            from <= i <= to <= chars.len(),
            s@ == chars@.subrange(from as int, i as int),
        decreases to - i,
    {
        s.push(chars[i]);
        i = i + 1;
        assert(chars@.subrange(from as int, i as int) =~= chars@.subrange(from as int, i - 1).push(
            chars@[i - 1],
        ));
    }
    s
}

/// The character that writes the decimal digit `d`.
pub open spec fn digit_char(d: int) -> char {
    if d == 0 {
        '0'
    } else if d == 1 {
        '1'
    } else if d == 2 {
        '2'
    } else if d == 3 {
        '3'
    } else if d == 4 {
        '4'
    } else if d == 5 {
        '5'
    } else if d == 6 {
        '6'
    } else if d == 7 {
        '7'
    } else if d == 8 {
        '8'
    } else {
        '9'
    }
}

/// The decimal digits of `n`, without leading zeros.
pub open spec fn natural_text(n: nat) -> Seq<char>
    decreases n,
{
    if n < 10 {
        seq![digit_char(n as int)]
    } else {
        natural_text(n / 10).push(digit_char((n % 10) as int))
    }
}

/// The decimal text of `v`: a `-` before the digits of a negative number.
pub open spec fn integer_text(v: int) -> Seq<char> {
    if v < 0 {
        seq!['-'] + natural_text((-v) as nat)
    } else {
        natural_text(v as nat)
    }
}

/// The low `width` bits of `v` as binary digits, the highest first.
pub open spec fn bits_text(v: int, width: nat) -> Seq<char>
    decreases width,
{
    if width == 0 {
        Seq::empty()
    } else {
        bits_text(v / 2, (width - 1) as nat).push(if v % 2 == 1 { '1' } else { '0' })
    }
}

/// `text`, with blanks behind it until it is `width` characters long.
pub open spec fn padded(text: Seq<char>, width: nat) -> Seq<char>
    decreases width - text.len(),
{
    if text.len() >= width {
        text
    } else {
        padded(text.push(' '), width)
    }
}

fn digit(d: u8) -> (c: char)
    requires
        d < 10,
    ensures
        c == digit_char(d as int),
{
    if d == 0 {
        '0'
    } else if d == 1 {
        '1'
    } else if d == 2 {
        '2'
    } else if d == 3 {
        '3'
    } else if d == 4 {
        '4'
    } else if d == 5 {
        '5'
    } else if d == 6 {
        '6'
    } else if d == 7 {
        '7'
    } else if d == 8 {
        '8'
    } else {
        '9'
    }
}

/// Appends the decimal text of `v`.
pub(crate) fn push_integer(s: &mut String, v: i8)
    ensures
        final(s)@ == old(s)@ + integer_text(v as int),
{
    let ghost start = s@;
    let magnitude: u8 = if v < 0 {
        s.push('-');
        (-(v as i16)) as u8
    } else {
        v as u8
    };
    let ghost signed = s@;
    proof {
        reveal_with_fuel(natural_text, 3);
    }
    if magnitude >= 100 {
        s.push(digit(magnitude / 100));
        s.push(digit((magnitude / 10) % 10));
        s.push(digit(magnitude % 10));
    } else if magnitude >= 10 {
        s.push(digit(magnitude / 10));
        s.push(digit(magnitude % 10));
    } else {
        s.push(digit(magnitude));
    }
    assert(s@ =~= signed + natural_text(magnitude as nat));
    assert(s@ =~= start + integer_text(v as int));
}

/// Appends the low `width` bits of `v` as binary digits, the highest first.
pub(crate) fn push_bits(s: &mut String, v: u16, width: u8)
    ensures
        final(s)@ == old(s)@ + bits_text(v as int, width as nat),
    decreases width,
{
    if width > 0 {
        let ghost start = s@;
        push_bits(s, v / 2, width - 1);
        s.push(if v % 2 == 1 { '1' } else { '0' });
        assert(s@ =~= start + bits_text(v as int, width as nat));
    } else {
        assert(s@ =~= s@ + bits_text(v as int, 0));
    }
}

/// Appends blanks until the string is `width` characters long.
pub(crate) fn pad_to(s: &mut String, width: usize)
    ensures
        final(s)@ == padded(old(s)@, width as nat),
{
    let mut n: usize = s.as_str().unicode_len();
    while n < width
        invariant
            s@.len() == n,
            padded(s@, width as nat) == padded(old(s)@, width as nat),
        decreases width - n,
    {
        s.push(' ');
        n = n + 1;
    }
}

} // verus!
