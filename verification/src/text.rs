use vstd::prelude::*;

verus! {

/// One row of the remote leaderboard.
#[derive(PartialEq, Eq, Debug)]
pub struct LeaderRow {
    pub player: Vec<u8>,
    pub score: u64,
}

/// Decimal digits of `n` as bytes, most significant first.
pub open spec fn dec_bytes_spec(n: nat) -> Seq<u8>
    decreases n,
{
    if n < 10 {
        seq![(48 + n) as u8]
    } else {
        dec_bytes_spec(n / 10) + seq![(48 + n % 10) as u8]
    }
}

/// The same digits as characters.
pub open spec fn dec_chars_spec(n: nat) -> Seq<char> {
    dec_bytes_spec(n).map_values(|b: u8| b as char)
}

/// Append the decimal digits of `n`.
pub fn push_dec_bytes(out: &mut Vec<u8>, n: u64)
    ensures
        final(out)@ == old(out)@ + dec_bytes_spec(n as nat),
    decreases n,
{
    if n >= 10 {
        push_dec_bytes(out, n / 10);
        out.push(48 + (n % 10) as u8);
        proof {
            assert(out@ =~= old(out)@ + dec_bytes_spec(n as nat));
        }
    } else {
        out.push(48 + n as u8);
        proof {
            assert(out@ =~= old(out)@ + dec_bytes_spec(n as nat));
        }
    }
}

pub fn push_dec_chars(out: &mut Vec<char>, n: u64)
    ensures
        final(out)@ == old(out)@ + dec_chars_spec(n as nat),
    decreases n,
{
    if n >= 10 {
        push_dec_chars(out, n / 10);
        out.push((48 + (n % 10) as u8) as char);
        proof {
            assert(dec_bytes_spec(n as nat) =~= dec_bytes_spec(n as nat / 10) + seq![
                (48 + n as nat % 10) as u8,
            ]);
            assert(out@ =~= old(out)@ + dec_chars_spec(n as nat));
        }
    } else {
        out.push((48 + n as u8) as char);
        proof {
            assert(out@ =~= old(out)@ + dec_chars_spec(n as nat));
        }
    }
}

/// The in-game score line.
pub open spec fn score_text_spec(score: nat) -> Seq<char> {
    seq!['S', 'c', 'o', 'r', 'e', ':', ' '] + dec_chars_spec(score)
}

pub fn score_text(score: u64) -> (r: Vec<char>)
    ensures
        r@ == score_text_spec(score as nat),
{
    let mut out: Vec<char> = Vec::new();
    out.push('S');
    out.push('c');
    out.push('o');
    out.push('r');
    out.push('e');
    out.push(':');
    out.push(' ');
    push_dec_chars(&mut out, score);
    proof {
        assert(out@ =~= score_text_spec(score as nat));
    }
    out
}

/// The game-over line: with a name, "name, your final score: n"; without
/// one, "Your final score: n".
pub open spec fn final_score_text_spec(name: Seq<char>, score: nat) -> Seq<char> {
    if name.len() == 0 {
        seq!['Y', 'o', 'u', 'r', ' ', 'f', 'i', 'n', 'a', 'l', ' ', 's', 'c', 'o', 'r', 'e', ':', ' ']
            + dec_chars_spec(score)
    } else {
        name + seq![',', ' ', 'y', 'o', 'u', 'r', ' ', 'f', 'i', 'n', 'a', 'l', ' ', 's', 'c', 'o', 'r', 'e', ':', ' ']
            + dec_chars_spec(score)
    }
}

pub fn final_score_text(name: &Vec<char>, score: u64) -> (r: Vec<char>)
    ensures
        r@ == final_score_text_spec(name@, score as nat),
{
    let mut out: Vec<char> = Vec::new();
    if name.len() == 0 {
        out.push('Y');
        out.push('o');
        out.push('u');
        out.push('r');
    } else {
        let mut i: usize = 0;
        while i < name.len()
            invariant
                i <= name@.len(),
                out@ == name@.subrange(0, i as int),
            decreases name@.len() - i,
        {
            out.push(name[i]);
            proof {
                assert(out@ =~= name@.subrange(0, i + 1 as int));
            }
            i = i + 1;
        }
        proof {
            assert(out@ =~= name@);
        }
        out.push(',');
        out.push(' ');
        out.push('y');
        out.push('o');
        out.push('u');
        out.push('r');
    }
    out.push(' ');
    out.push('f');
    out.push('i');
    out.push('n');
    out.push('a');
    out.push('l');
    out.push(' ');
    out.push('s');
    out.push('c');
    out.push('o');
    out.push('r');
    out.push('e');
    out.push(':');
    out.push(' ');
    push_dec_chars(&mut out, score);
    proof {
        assert(out@ =~= final_score_text_spec(name@, score as nat));
    }
    out
}

/// One rendered leaderboard row: a line break, the player, a separator and
/// the score.
pub open spec fn row_line_spec(player: Seq<u8>, score: nat) -> Seq<u8> {
    seq![10u8] + player + seq![58u8, 32u8] + dec_bytes_spec(score)
}

pub open spec fn render_rows_spec(rows: Seq<LeaderRow>) -> Seq<u8>
    decreases rows.len(),
{
    if rows.len() == 0 {
        Seq::empty()
    } else {
        render_rows_spec(rows.drop_last()) + row_line_spec(
            rows.last().player@,
            rows.last().score as nat,
        )
    }
}

/// The whole game-over leaderboard text.
pub open spec fn leaderboard_text_spec(rows: Seq<LeaderRow>) -> Seq<u8> {
    seq![
        76u8, 101u8, 97u8, 100u8, 101u8, 114u8, 98u8, 111u8, 97u8, 114u8, 100u8, 58u8, 32u8,
    ] + render_rows_spec(rows)
}

/// Render the fetched rows as the plain text of the game-over screen:
/// "Leaderboard: " and one line per row.
pub fn leaderboard_text(rows: &Vec<LeaderRow>) -> (r: Vec<u8>)
    ensures
        r@ == leaderboard_text_spec(rows@),
{
    let mut out: Vec<u8> = Vec::new();
    out.push(76);
    out.push(101);
    out.push(97);
    out.push(100);
    out.push(101);
    out.push(114);
    out.push(98);
    out.push(111);
    out.push(97);
    out.push(114);
    out.push(100);
    out.push(58);
    out.push(32);
    proof {
        assert(out@ =~= leaderboard_text_spec(rows@.subrange(0, 0)));
    }
    let mut i: usize = 0;
    while i < rows.len()
        invariant
            i <= rows@.len(),
            out@ == leaderboard_text_spec(rows@.subrange(0, i as int)),
        decreases rows@.len() - i,
    {
        proof {
            let pre = rows@.subrange(0, i as int);
            let cur = rows@.subrange(0, i + 1 as int);
            assert(cur.drop_last() =~= pre);
            assert(cur.last() == rows@[i as int]);
        }
        out.push(10);
        let row = &rows[i];
        let mut k: usize = 0;
        let ghost mid = out@;
        while k < row.player.len()
            invariant
                k <= row.player@.len(),
                out@ == mid + row.player@.subrange(0, k as int),
            decreases row.player@.len() - k,
        {
            out.push(row.player[k]);
            proof {
                assert(out@ =~= mid + row.player@.subrange(0, k + 1 as int));
            }
            k = k + 1;
        }
        proof {
            assert(row.player@.subrange(0, row.player@.len() as int) =~= row.player@);
        }
        out.push(58);
        out.push(32);
        push_dec_bytes(&mut out, row.score);
        proof {
            assert(out@ =~= leaderboard_text_spec(rows@.subrange(0, i + 1 as int)));
        }
        i = i + 1;
    }
    proof {
        assert(rows@.subrange(0, rows@.len() as int) =~= rows@);
    }
    out
}

// ---------------------------------------------------------------------
// The leaderboard wire format: a JSON array of objects, each with exactly
// a "player" string and a "score" unsigned integer, in either order, with
// literal keys. String values take the escapes \" \\ \/ \b \f \n \r \t;
// every other byte between the quotes passes through unchanged. A score
// beyond the 64-bit range, or anything outside this shape, is rejected.
// ---------------------------------------------------------------------

pub open spec fn is_ws_spec(b: u8) -> bool {
    b == 32 || b == 9 || b == 10 || b == 13
}

pub open spec fn is_digit_spec(b: u8) -> bool {
    48 <= b <= 57
}

/// The first position at or after `i` that does not hold whitespace.
pub open spec fn skip_ws_spec(s: Seq<u8>, i: int) -> int
    decreases s.len() - i,
{
    if 0 <= i < s.len() && is_ws_spec(s[i]) {
        skip_ws_spec(s, i + 1)
    } else {
        i
    }
}

fn skip_ws(s: &[u8], i: usize) -> (r: usize)
    requires
        i <= s@.len(),
    ensures
        r == skip_ws_spec(s@, i as int),
        i <= r <= s@.len(),
{
    let mut cur = i;
    while cur < s.len() && (s[cur] == 32 || s[cur] == 9 || s[cur] == 10 || s[cur] == 13)
        invariant
            i <= cur <= s@.len(),
            skip_ws_spec(s@, i as int) == skip_ws_spec(s@, cur as int),
        decreases s@.len() - cur,
    {
        cur = cur + 1;
    }
    cur
}

/// What a backslash escape stands for.
pub open spec fn unescape_spec(b: u8) -> Option<u8> {
    if b == 34 {
        Some(34u8)
    } else if b == 92 {
        Some(92u8)
    } else if b == 47 {
        Some(47u8)
    } else if b == 98 {
        Some(8u8)
    } else if b == 102 {
        Some(12u8)
    } else if b == 110 {
        Some(10u8)
    } else if b == 114 {
        Some(13u8)
    } else if b == 116 {
        Some(9u8)
    } else {
        None
    }
}

fn unescape(b: u8) -> (r: Option<u8>)
    ensures
        r == unescape_spec(b),
{
    if b == 34 {
        Some(34)
    } else if b == 92 {
        Some(92)
    } else if b == 47 {
        Some(47)
    } else if b == 98 {
        Some(8)
    } else if b == 102 {
        Some(12)
    } else if b == 110 {
        Some(10)
    } else if b == 114 {
        Some(13)
    } else if b == 116 {
        Some(9)
    } else {
        None
    }
}

/// The string content from just after an opening quote to its closing
/// quote, with escapes resolved, and the position after the quote.
pub open spec fn parse_str_rest_spec(s: Seq<u8>, i: int) -> Option<(Seq<u8>, int)>
    decreases s.len() - i,
{
    if !(0 <= i < s.len()) {
        None
    } else if s[i] == 34 {
        Some((Seq::empty(), i + 1))
    } else if s[i] == 92 {
        if i + 1 < s.len() {
            match unescape_spec(s[i + 1]) {
                Some(c) => match parse_str_rest_spec(s, i + 2) {
                    Some(p) => Some((seq![c] + p.0, p.1)),
                    None => None,
                },
                None => None,
            }
        } else {
            None
        }
    } else {
        match parse_str_rest_spec(s, i + 1) {
            Some(p) => Some((seq![s[i]] + p.0, p.1)),
            None => None,
        }
    }
}

fn parse_str_rest(s: &[u8], i: usize) -> (r: Option<(Vec<u8>, usize)>)
    requires
        i <= s@.len(),
    ensures
        r is None ==> parse_str_rest_spec(s@, i as int) is None,
        r matches Some(p) ==> parse_str_rest_spec(s@, i as int) == Some((p.0@, p.1 as int))
            && i < p.1 <= s@.len(),
{
    let mut acc: Vec<u8> = Vec::new();
    let mut cur = i;
    loop
        invariant
            i <= cur <= s@.len(),
            (match parse_str_rest_spec(s@, cur as int) {
                Some(p) => parse_str_rest_spec(s@, i as int) == Some((acc@ + p.0, p.1))
                    && cur < p.1 <= s@.len(),
                None => parse_str_rest_spec(s@, i as int) is None,
            }) || (parse_str_rest_spec(s@, cur as int) matches Some(q) && !(cur < q.1
                <= s@.len())),
        decreases s@.len() - cur,
    {
        proof {
            lemma_str_rest_bounds(s@, cur as int);
        }
        if cur >= s.len() {
            return None;
        }
        let b = s[cur];
        if b == 34 {
            proof {
                assert(acc@ + Seq::<u8>::empty() =~= acc@);
            }
            return Some((acc, cur + 1));
        } else if b == 92 {
            if cur + 1 < s.len() {
                match unescape(s[cur + 1]) {
                    Some(c) => {
                        acc.push(c);
                        proof {
                            match parse_str_rest_spec(s@, cur + 2 as int) {
                                Some(p) => {
                                    assert(acc@ + p.0 =~= acc@.drop_last() + (seq![c] + p.0));
                                },
                                None => {},
                            }
                            lemma_str_rest_bounds(s@, cur + 2 as int);
                        }
                        cur = cur + 2;
                    },
                    None => {
                        return None;
                    },
                }
            } else {
                return None;
            }
        } else {
            acc.push(b);
            proof {
                match parse_str_rest_spec(s@, cur + 1 as int) {
                    Some(p) => {
                        assert(acc@ + p.0 =~= acc@.drop_last() + (seq![s@[cur as int]] + p.0));
                    },
                    None => {},
                }
                lemma_str_rest_bounds(s@, cur + 1 as int);
            }
            cur = cur + 1;
        }
    }
}

/// A parsed string ends after where it began, within the input.
proof fn lemma_str_rest_bounds(s: Seq<u8>, i: int)
    ensures
        parse_str_rest_spec(s, i) matches Some(p) ==> i < p.1 <= s.len(),
    decreases s.len() - i,
{
    if 0 <= i < s.len() {
        if s[i] == 34 {
        } else if s[i] == 92 {
            if i + 1 < s.len() {
                lemma_str_rest_bounds(s, i + 2);
            }
        } else {
            lemma_str_rest_bounds(s, i + 1);
        }
    }
}

/// The digits from `i` accumulated onto `acc`, rejected past the 64-bit
/// range, and the position after them.
pub open spec fn parse_num_rest_spec(s: Seq<u8>, i: int, acc: int) -> Option<(int, int)>
    decreases s.len() - i,
{
    if 0 <= i < s.len() && is_digit_spec(s[i]) {
        if acc * 10 + (s[i] - 48) > u64::MAX {
            None
        } else {
            parse_num_rest_spec(s, i + 1, acc * 10 + (s[i] - 48))
        }
    } else {
        Some((acc, i))
    }
}

fn parse_num_rest(s: &[u8], i: usize) -> (r: Option<(u64, usize)>)
    requires
        i <= s@.len(),
    ensures
        r is None ==> parse_num_rest_spec(s@, i as int, 0) is None,
        r matches Some(p) ==> parse_num_rest_spec(s@, i as int, 0) == Some((
            p.0 as int,
            p.1 as int,
        )) && i <= p.1 <= s@.len(),
{
    let mut acc: u64 = 0;
    let mut cur = i;
    while cur < s.len() && 48 <= s[cur] && s[cur] <= 57
        invariant
            i <= cur <= s@.len(),
            parse_num_rest_spec(s@, i as int, 0) == parse_num_rest_spec(
                s@,
                cur as int,
                acc as int,
            ),
        decreases s@.len() - cur,
    {
        let d = s[cur] - 48;
        if acc > u64::MAX / 10 || (acc == u64::MAX / 10 && d as u64 > u64::MAX % 10) {
            return None;
        }
        acc = acc * 10 + d as u64;
        cur = cur + 1;
    }
    Some((acc, cur))
}

/// The literal key `"player"` stands at `i`.
pub open spec fn starts_player_spec(s: Seq<u8>, i: int) -> bool {
    &&& 0 <= i
    &&& i + 8 <= s.len()
    &&& s[i] == 34
    &&& s[i + 1] == 112
    &&& s[i + 2] == 108
    &&& s[i + 3] == 97
    &&& s[i + 4] == 121
    &&& s[i + 5] == 101
    &&& s[i + 6] == 114
    &&& s[i + 7] == 34
}

/// The literal key `"score"` stands at `i`.
pub open spec fn starts_score_spec(s: Seq<u8>, i: int) -> bool {
    &&& 0 <= i
    &&& i + 7 <= s.len()
    &&& s[i] == 34
    &&& s[i + 1] == 115
    &&& s[i + 2] == 99
    &&& s[i + 3] == 111
    &&& s[i + 4] == 114
    &&& s[i + 5] == 101
    &&& s[i + 6] == 34
}

/// The `"player": <string>` member at `i`: its value and the position
/// after it.
pub open spec fn parse_player_member_spec(s: Seq<u8>, i: int) -> Option<(Seq<u8>, int)> {
    if starts_player_spec(s, i) {
        let j = skip_ws_spec(s, i + 8);
        if 0 <= j < s.len() && s[j] == 58 {
            let k = skip_ws_spec(s, j + 1);
            if 0 <= k < s.len() && s[k] == 34 {
                parse_str_rest_spec(s, k + 1)
            } else {
                None
            }
        } else {
            None
        }
    } else {
        None
    }
}

/// The `"score": <number>` member at `i`: its value and the position
/// after it.
pub open spec fn parse_score_member_spec(s: Seq<u8>, i: int) -> Option<(int, int)> {
    if starts_score_spec(s, i) {
        let j = skip_ws_spec(s, i + 7);
        if 0 <= j < s.len() && s[j] == 58 {
            let k = skip_ws_spec(s, j + 1);
            if 0 <= k < s.len() && is_digit_spec(s[k]) {
                parse_num_rest_spec(s, k, 0)
            } else {
                None
            }
        } else {
            None
        }
    } else {
        None
    }
}

fn starts_player(s: &[u8], i: usize) -> (r: bool)
    requires
        i <= s@.len(),
    ensures
        r == starts_player_spec(s@, i as int),
{
    s.len() - i >= 8 && s[i] == 34 && s[i + 1] == 112 && s[i + 2] == 108 && s[i + 3] == 97
        && s[i + 4] == 121 && s[i + 5] == 101 && s[i + 6] == 114 && s[i + 7] == 34
}

fn starts_score(s: &[u8], i: usize) -> (r: bool)
    requires
        i <= s@.len(),
    ensures
        r == starts_score_spec(s@, i as int),
{
    s.len() - i >= 7 && s[i] == 34 && s[i + 1] == 115 && s[i + 2] == 99 && s[i + 3] == 111
        && s[i + 4] == 114 && s[i + 5] == 101 && s[i + 6] == 34
}

fn parse_player_member(s: &[u8], i: usize) -> (r: Option<(Vec<u8>, usize)>)
    requires
        i <= s@.len(),
    ensures
        r is None ==> parse_player_member_spec(s@, i as int) is None,
        r matches Some(p) ==> parse_player_member_spec(s@, i as int) == Some((p.0@, p.1 as int))
            && p.1 <= s@.len(),
{
    if !starts_player(s, i) {
        return None;
    }
    let n = s.len();
    assert(i + 8 <= n);
    let j = skip_ws(s, i + 8);
    if j < s.len() && s[j] == 58 {
        let k = skip_ws(s, j + 1);
        if k < s.len() && s[k] == 34 {
            parse_str_rest(s, k + 1)
        } else {
            None
        }
    } else {
        None
    }
}

fn parse_score_member(s: &[u8], i: usize) -> (r: Option<(u64, usize)>)
    requires
        i <= s@.len(),
    ensures
        r is None ==> parse_score_member_spec(s@, i as int) is None,
        r matches Some(p) ==> parse_score_member_spec(s@, i as int) == Some((
            p.0 as int,
            p.1 as int,
        )) && p.1 <= s@.len(),
{
    if !starts_score(s, i) {
        return None;
    }
    let n = s.len();
    assert(i + 7 <= n);
    let j = skip_ws(s, i + 7);
    if j < s.len() && s[j] == 58 {
        let k = skip_ws(s, j + 1);
        if k < s.len() && 48 <= s[k] && s[k] <= 57 {
            parse_num_rest(s, k)
        } else {
            None
        }
    } else {
        None
    }
}

/// One row object at `i`: the player, the score, and the position after
/// the closing brace. The two members come in either order.
pub open spec fn parse_row_spec(s: Seq<u8>, i: int) -> Option<((Seq<u8>, int), int)> {
    if 0 <= i < s.len() && s[i] == 123 {
        let a = skip_ws_spec(s, i + 1);
        match parse_player_member_spec(s, a) {
            Some(pm) => {
                let b = skip_ws_spec(s, pm.1);
                if 0 <= b < s.len() && s[b] == 44 {
                    let c = skip_ws_spec(s, b + 1);
                    match parse_score_member_spec(s, c) {
                        Some(sm) => {
                            let d = skip_ws_spec(s, sm.1);
                            if 0 <= d < s.len() && s[d] == 125 {
                                Some(((pm.0, sm.0), d + 1))
                            } else {
                                None
                            }
                        },
                        None => None,
                    }
                } else {
                    None
                }
            },
            None => match parse_score_member_spec(s, a) {
                Some(sm) => {
                    let b = skip_ws_spec(s, sm.1);
                    if 0 <= b < s.len() && s[b] == 44 {
                        let c = skip_ws_spec(s, b + 1);
                        match parse_player_member_spec(s, c) {
                            Some(pm) => {
                                let d = skip_ws_spec(s, pm.1);
                                if 0 <= d < s.len() && s[d] == 125 {
                                    Some(((pm.0, sm.0), d + 1))
                                } else {
                                    None
                                }
                            },
                            None => None,
                        }
                    } else {
                        None
                    }
                },
                None => None,
            },
        }
    } else {
        None
    }
}

fn parse_row(s: &[u8], i: usize) -> (r: Option<(LeaderRow, usize)>)
    requires
        i <= s@.len(),
    ensures
        r is None ==> parse_row_spec(s@, i as int) is None,
        r matches Some(p) ==> parse_row_spec(s@, i as int) == Some((
            (p.0.player@, p.0.score as int),
            p.1 as int,
        )) && p.1 <= s@.len(),
{
    if !(i < s.len() && s[i] == 123) {
        return None;
    }
    let a = skip_ws(s, i + 1);
    match parse_player_member(s, a) {
        Some((player, j)) => {
            let b = skip_ws(s, j);
            if b < s.len() && s[b] == 44 {
                let c = skip_ws(s, b + 1);
                match parse_score_member(s, c) {
                    Some((score, k)) => {
                        let d = skip_ws(s, k);
                        if d < s.len() && s[d] == 125 {
                            Some((LeaderRow { player, score }, d + 1))
                        } else {
                            None
                        }
                    },
                    None => None,
                }
            } else {
                None
            }
        },
        None => match parse_score_member(s, a) {
            Some((score, j)) => {
                let b = skip_ws(s, j);
                if b < s.len() && s[b] == 44 {
                    let c = skip_ws(s, b + 1);
                    match parse_player_member(s, c) {
                        Some((player, k)) => {
                            let d = skip_ws(s, k);
                            if d < s.len() && s[d] == 125 {
                                Some((LeaderRow { player, score }, d + 1))
                            } else {
                                None
                            }
                        },
                        None => None,
                    }
                } else {
                    None
                }
            },
            None => None,
        },
    }
}

/// The comma-separated rows from `i` up to and including the closing
/// bracket. The fuel only bounds the recursion; one unit per row is spent,
/// so any fuel beyond the input length never runs out.
pub open spec fn parse_rows_spec(s: Seq<u8>, i: int, fuel: nat) -> Option<
    (Seq<(Seq<u8>, int)>, int),
>
    decreases fuel,
{
    if fuel == 0 {
        None
    } else {
        match parse_row_spec(s, i) {
            Some(rp) => {
                let j = skip_ws_spec(s, rp.1);
                if 0 <= j < s.len() && s[j] == 44 {
                    let k = skip_ws_spec(s, j + 1);
                    match parse_rows_spec(s, k, (fuel - 1) as nat) {
                        Some(rest) => Some((seq![rp.0] + rest.0, rest.1)),
                        None => None,
                    }
                } else if 0 <= j < s.len() && s[j] == 93 {
                    Some((seq![rp.0], j + 1))
                } else {
                    None
                }
            },
            None => None,
        }
    }
}

fn parse_rows(s: &[u8], i: usize, fuel: usize) -> (r: Option<(Vec<LeaderRow>, usize)>)
    requires
        i <= s@.len(),
    ensures
        r is None ==> parse_rows_spec(s@, i as int, fuel as nat) is None,
        r matches Some(p) ==> parse_rows_spec(s@, i as int, fuel as nat) == Some((
            p.0@.map_values(|row: LeaderRow| (row.player@, row.score as int)),
            p.1 as int,
        )) && p.1 <= s@.len(),
    decreases fuel,
{
    if fuel == 0 {
        return None;
    }
    match parse_row(s, i) {
        Some((row, j)) => {
            let b = skip_ws(s, j);
            if b < s.len() && s[b] == 44 {
                let c = skip_ws(s, b + 1);
                match parse_rows(s, c, fuel - 1) {
                    Some((mut rest, n)) => {
                        rest.insert(0, row);
                        proof {
                            assert(rest@.map_values(
                                |row: LeaderRow| (row.player@, row.score as int),
                            ) =~= seq![(row.player@, row.score as int)]
                                + rest@.drop_first().map_values(
                                |row: LeaderRow| (row.player@, row.score as int),
                            ));
                        }
                        Some((rest, n))
                    },
                    None => None,
                }
            } else if b < s.len() && s[b] == 93 {
                let mut v: Vec<LeaderRow> = Vec::new();
                v.push(row);
                proof {
                    assert(v@.map_values(|row: LeaderRow| (row.player@, row.score as int))
                        =~= seq![(v@[0].player@, v@[0].score as int)]);
                }
                Some((v, b + 1))
            } else {
                None
            }
        },
        None => None,
    }
}

/// The whole leaderboard document: optional whitespace, the bracketed row
/// list, optional trailing whitespace, nothing else.
pub open spec fn parse_leaderboard_spec(s: Seq<u8>) -> Option<Seq<(Seq<u8>, int)>> {
    let i = skip_ws_spec(s, 0);
    if 0 <= i < s.len() && s[i] == 91 {
        let j = skip_ws_spec(s, i + 1);
        if 0 <= j < s.len() && s[j] == 93 {
            if skip_ws_spec(s, j + 1) == s.len() {
                Some(Seq::empty())
            } else {
                None
            }
        } else {
            match parse_rows_spec(s, j, (s.len() + 1) as nat) {
                Some(p) => {
                    if skip_ws_spec(s, p.1) == s.len() {
                        Some(p.0)
                    } else {
                        None
                    }
                },
                None => None,
            }
        }
    } else {
        None
    }
}

/// Parse the fetched leaderboard document into its rows. `None` is a
/// malformed document, which the game-over setup treats as fatal.
pub fn parse_leaderboard(s: &[u8]) -> (r: Option<Vec<LeaderRow>>)
    requires
        s@.len() < usize::MAX,
    ensures
        r is None ==> parse_leaderboard_spec(s@) is None,
        r matches Some(v) ==> parse_leaderboard_spec(s@) == Some(
            v@.map_values(|row: LeaderRow| (row.player@, row.score as int)),
        ),
{
    let i = skip_ws(s, 0);
    if i < s.len() && s[i] == 91 {
        let j = skip_ws(s, i + 1);
        if j < s.len() && s[j] == 93 {
            if skip_ws(s, j + 1) == s.len() {
                let v: Vec<LeaderRow> = Vec::new();
                proof {
                    assert(v@.map_values(|row: LeaderRow| (row.player@, row.score as int))
                        =~= Seq::<(Seq<u8>, int)>::empty());
                }
                Some(v)
            } else {
                None
            }
        } else {
            match parse_rows(s, j, s.len() + 1) {
                Some((v, n)) => {
                    if skip_ws(s, n) == s.len() {
                        Some(v)
                    } else {
                        None
                    }
                },
                None => None,
            }
        }
    } else {
        None
    }
}

} // verus!
