//! Where each frame's point-cloud file goes, and its header's dimensions.
use vstd::prelude::*;
use vstd::string::StringExecFns;

verus! {

/// The least number of digits in a frame file's name.
pub const FRAME_NAME_WIDTH: usize = 5;

pub open spec fn digit_char(d: nat) -> char
    recommends
        d < 10,
{
    seq!['0', '1', '2', '3', '4', '5', '6', '7', '8', '9'][d as int]
}

/// The decimal digits of `n`, most significant first, without leading zeros.
pub open spec fn decimal(n: nat) -> Seq<char>
    decreases n,
{
    if n < 10 {
        seq![digit_char(n)]
    } else {
        decimal(n / 10).push(digit_char(n % 10))
    }
}

/// The decimal digits of `n`, left-padded with zeros to at least `width`.
pub open spec fn zero_padded(n: nat, width: nat) -> Seq<char> {
    let digits = decimal(n);
    if digits.len() < width {
        Seq::new((width - digits.len()) as nat, |i: int| '0') + digits
    } else {
        digits
    }
}

/// The extension of a point-cloud file, dot included.
pub open spec fn pcd_extension() -> Seq<char> {
    seq!['.', 'p', 'c', 'd']
}

/// The name of the file that holds frame `frame_id` within its source's
/// directory.
pub open spec fn frame_file_name_spec(frame_id: nat) -> Seq<char> {
    zero_padded(frame_id, FRAME_NAME_WIDTH as nat) + pcd_extension()
}

/// The decimal digits of `n`, or the empty sequence when `n` is 0.
spec fn decimal_prefix(n: nat) -> Seq<char> {
    if n == 0 {
        Seq::empty()
    } else {
        decimal(n)
    }
}

proof fn lemma_decimal_len(n: nat)
    ensures
        decimal(n).len() >= 1,
    decreases n,
{
    if n >= 10 {
        lemma_decimal_len(n / 10);
    }
}

fn digit_str(d: u8) -> (r: &'static str)
    requires
        d < 10,
    ensures
        r@ == seq![digit_char(d as nat)],
{
    proof {
        reveal_strlit("0");
        reveal_strlit("1");
        reveal_strlit("2");
        reveal_strlit("3");
        reveal_strlit("4");
        reveal_strlit("5");
        reveal_strlit("6");
        reveal_strlit("7");
        reveal_strlit("8");
        reveal_strlit("9");
    }
    match d {
        0 => "0",
        1 => "1",
        2 => "2",
        3 => "3",
        4 => "4",
        5 => "5",
        6 => "6",
        7 => "7",
        8 => "8",
        _ => "9",
    }
}

/// The file name of a frame: its id in decimal, zero-padded to five
/// digits, then `.pcd` (`00042.pcd`). Ids of more than five digits are
/// written in full.
pub fn frame_file_name(frame_id: usize) -> (r: String)
    ensures
        r@ == frame_file_name_spec(frame_id as nat),
{
    // the digits of frame_id, most significant first
    let mut digits: Vec<u8> = Vec::new();
    let mut m: usize = frame_id / 10;
    digits.push((frame_id % 10) as u8);
    proof {
        lemma_decimal_split(frame_id as nat);
        assert(digits@.map_values(|d: u8| digit_char(d as nat)) =~= seq![
            digit_char(frame_id as nat % 10),
        ]);
    }
    while m > 0
        invariant
            decimal(frame_id as nat) == decimal_prefix(m as nat) + digits@.map_values(
                |d: u8| digit_char(d as nat),
            ),
            forall|i: int| 0 <= i < digits.len() ==> digits[i] < 10,
        decreases m,
    {
        let ghost old_chars = digits@.map_values(|d: u8| digit_char(d as nat));
        proof {
            lemma_decimal_split(m as nat);
        }
        digits.insert(0, (m % 10) as u8);
        m = m / 10;
        proof {
            let new_chars = digits@.map_values(|d: u8| digit_char(d as nat));
            assert(new_chars =~= seq![digit_char((m as nat * 10 + digits[0] as nat) % 10)]
                + old_chars);
            assert(decimal_prefix(m as nat) + new_chars =~= decimal_prefix(m as nat) + seq![
                digit_char(digits[0] as nat),
            ] + old_chars);
        }
    }
    let ghost chars = digits@.map_values(|d: u8| digit_char(d as nat));
    assert(decimal(frame_id as nat) =~= chars);

    let n = digits.len();
    let pad: usize = if n < FRAME_NAME_WIDTH {
        FRAME_NAME_WIDTH - n
    } else {
        0
    };
    let mut s = String::new();
    let mut p: usize = 0;
    while p < pad
        invariant
            p <= pad,
            s@ =~= Seq::new(p as nat, |i: int| '0'),
        decreases pad - p,
    {
        s.append(digit_str(0));
        p = p + 1;
    }
    let mut i: usize = 0;
    while i < n
        invariant
            i <= n,
            n == digits.len(),
            forall|j: int| 0 <= j < digits.len() ==> digits[j] < 10,
            chars == digits@.map_values(|d: u8| digit_char(d as nat)),
            s@ =~= Seq::new(pad as nat, |i: int| '0') + chars.take(i as int),
        decreases n - i,
    {
        s.append(digit_str(digits[i]));
        assert(chars.take(i as int + 1) =~= chars.take(i as int).push(chars[i as int]));
        i = i + 1;
    }
    proof {
        reveal_strlit(".pcd");
        assert(chars.take(n as int) =~= chars);
        lemma_decimal_len(frame_id as nat);
    }
    s.append(".pcd");
    s
}

proof fn lemma_decimal_split(n: nat)
    ensures
        decimal(n) == decimal_prefix(n / 10).push(digit_char(n % 10)),
{
    if n < 10 {
        assert(decimal_prefix(n / 10) =~= Seq::<char>::empty());
        assert(decimal(n) =~= Seq::<char>::empty().push(digit_char(n % 10)));
    }
}

/// The header of one frame's point-cloud file, and the file's name: one row
/// (`height` 1) of `width` points.
#[derive(Debug, PartialEq, Eq)]
pub struct FrameLayout {
    pub file_name: String,
    pub width: u64,
    pub height: u64,
}

/// The name and header dimensions of the file for frame `frame_id` holding
/// `n_points` points. A frame of no points still gets a file, of width 0.
pub fn frame_layout(frame_id: usize, n_points: usize) -> (r: FrameLayout)
    ensures
        r.file_name@ == frame_file_name_spec(frame_id as nat),
        r.width == n_points,
        r.height == 1,
{
    FrameLayout { file_name: frame_file_name(frame_id), width: n_points as u64, height: 1 }
}

} // verus!
