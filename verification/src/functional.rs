use vstd::prelude::*;
use vstd::arithmetic::div_mod::{
    lemma_div_by_multiple, lemma_div_is_ordered, lemma_div_pos_is_pos,
};
use vstd::arithmetic::mul::{lemma_mul_inequality, lemma_mul_nonnegative};
use crate::divided_name::SCORE_SCALE;
use crate::kanji::KanjiStatisticsRepository;

verus! {

/// The six-way order mask: which of the order classes are structurally
/// possible for the character at `char_idx` of a name of `full_name_length`
/// code points.  Meaningful for interior positions, `1 <= char_idx <=
/// full_name_length - 2`.
pub open spec fn spec_order_mask(full_name_length: int, char_idx: int) -> Seq<bool> {
    if full_name_length == 3 {
        seq![false, false, true, true, false, false]
    } else if char_idx == 1 {
        seq![false, true, true, true, false, false]
    } else if char_idx == full_name_length - 2 {
        seq![false, false, true, true, true, false]
    } else {
        seq![false, true, true, true, true, false]
    }
}

/// The order class of the character at `idx_in_piece` of a piece of
/// `piece_len` code points: 0/1/2 for family start/middle/end, 3/4/5 for
/// given start/middle/end.  A piece of length one is reported as a start.
pub open spec fn spec_order_status(piece_len: int, idx_in_piece: int, is_family: bool) -> int {
    if idx_in_piece == 0 {
        if is_family {
            0
        } else {
            3
        }
    } else if idx_in_piece == piece_len - 1 {
        if is_family {
            2
        } else {
            5
        }
    } else {
        if is_family {
            1
        } else {
            4
        }
    }
}

/// Length classes are clamped at four: a piece of five or more code points
/// falls in the four-or-more class.
pub open spec fn spec_clamp4(x: int) -> int {
    if x > 4 {
        4
    } else {
        x
    }
}

/// The eight-way length mask: which length classes (family piece of length
/// 1..4+, then given piece of length 1..4+) are feasible for the character
/// at `char_idx` of a name of `full_name_length` code points.
pub open spec fn spec_length_mask(full_name_length: int, char_idx: int) -> Seq<bool> {
    Seq::new(
        8,
        |j: int|
            if j < 4 {
                &&& char_idx + 1 <= full_name_length - 1
                &&& spec_clamp4(char_idx + 1) - 1 <= j
                &&& j < spec_clamp4(full_name_length - 1)
            } else {
                &&& full_name_length - char_idx <= full_name_length - 1
                &&& spec_clamp4(full_name_length - char_idx) - 1 <= j - 4
                &&& j - 4 < spec_clamp4(full_name_length - 1)
            },
    )
}

/// The length class of a piece: its clamped length mapped into 0..3 for the
/// family piece and 4..7 for the given piece.
pub open spec fn spec_length_status(piece_len: int, is_family: bool) -> int {
    if is_family {
        spec_clamp4(piece_len) - 1
    } else {
        spec_clamp4(piece_len) - 1 + 4
    }
}

/// The sum of the first `n` counts that the mask lets through.
pub open spec fn spec_masked_sum_to(counts: Seq<u32>, mask: Seq<bool>, n: int) -> int
    decreases n,
{
    if n <= 0 {
        0
    } else {
        spec_masked_sum_to(counts, mask, n - 1) + if mask[n - 1] {
            counts[n - 1] as int
        } else {
            0
        }
    }
}

/// One character's contribution: its masked count at `status` over the
/// masked sum, in fixed-point units of [`SCORE_SCALE`]; zero when the mask
/// lets no count through.
pub open spec fn spec_contribution(counts: Seq<u32>, mask: Seq<bool>, status: int) -> int {
    let total = spec_masked_sum_to(counts, mask, counts.len() as int);
    if total == 0 {
        0
    } else {
        let masked_at_status = if mask[status] {
            counts[status] as int
        } else {
            0
        };
        (masked_at_status * SCORE_SCALE) / total
    }
}

proof fn lemma_masked_sum_nonneg(counts: Seq<u32>, mask: Seq<bool>, n: int)
    ensures
        0 <= spec_masked_sum_to(counts, mask, n),
    decreases n,
{
    if n > 0 {
        lemma_masked_sum_nonneg(counts, mask, n - 1);
    }
}

proof fn lemma_masked_sum_elem(counts: Seq<u32>, mask: Seq<bool>, n: int, j: int)
    requires
        0 <= j < n,
        mask[j],
    ensures
        counts[j] as int <= spec_masked_sum_to(counts, mask, n),
    decreases n,
{
    lemma_masked_sum_nonneg(counts, mask, n - 1);
    if j < n - 1 {
        lemma_masked_sum_elem(counts, mask, n - 1, j);
    }
}

/// Multiplication distributes over a sum of counts: used to merge the
/// per-piece score bounds into one bound over the whole name.
pub proof fn lemma_mul_distribute(a: int, b: int, s: int)
    ensures
        a * s + b * s == (a + b) * s,
{
    assert(a * s + b * s == (a + b) * s) by (nonlinear_arith);
}

/// A fraction of the fixed-point scale never exceeds the scale.
proof fn lemma_frac_le_scale(m: int, total: int)
    requires
        0 <= m <= total,
        0 < total,
    ensures
        0 <= (m * SCORE_SCALE) / total <= SCORE_SCALE,
{
    lemma_mul_nonnegative(m, SCORE_SCALE as int);
    lemma_div_pos_is_pos(m * SCORE_SCALE, total);
    lemma_mul_inequality(m, total, SCORE_SCALE as int);
    lemma_div_is_ordered(m * SCORE_SCALE, total * SCORE_SCALE, total);
    lemma_div_by_multiple(SCORE_SCALE as int, total);
    assert(total * SCORE_SCALE == SCORE_SCALE * total) by (nonlinear_arith);
}

/// One contribution always lies between zero and the scale: it stands for
/// a probability.
pub proof fn lemma_contribution_in_unit(counts: Seq<u32>, mask: Seq<bool>, status: int)
    requires
        0 <= status < counts.len(),
        mask.len() == counts.len(),
    ensures
        0 <= spec_contribution(counts, mask, status) <= SCORE_SCALE,
{
    let total = spec_masked_sum_to(counts, mask, counts.len() as int);
    lemma_masked_sum_nonneg(counts, mask, counts.len() as int);
    if total != 0 {
        if mask[status] {
            lemma_masked_sum_elem(counts, mask, counts.len() as int, status);
            lemma_frac_le_scale(counts[status] as int, total);
        } else {
            lemma_frac_le_scale(0, total);
        }
    }
}

/// The structurally possible order classes for the character at `char_idx`,
/// or the refusal for the never-ambiguous first and last character.
pub fn create_order_mask(full_name_length: usize, char_idx: usize) -> (mask: Result<
    Vec<bool>,
    &'static str,
>)
    requires
        2 <= full_name_length,
    ensures
        mask is Err <==> (char_idx == 0 || char_idx == full_name_length - 1),
        match mask {
            Result::Ok(m) => m@ == spec_order_mask(full_name_length as int, char_idx as int)
                && m@.len() == 6,
            Result::Err(e) => e@ == "First character and last character must not be created order mask."@,
        },
{
    if char_idx == 0 || char_idx == full_name_length - 1 {
        return Result::Err("First character and last character must not be created order mask.");
    }
    if full_name_length == 3 {
        let m = vec![false, false, true, true, false, false];
        proof {
            assert(m@ =~= spec_order_mask(full_name_length as int, char_idx as int));
        }
        return Result::Ok(m);
    }
    if char_idx == 1 {
        let m = vec![false, true, true, true, false, false];
        proof {
            assert(m@ =~= spec_order_mask(full_name_length as int, char_idx as int));
        }
        return Result::Ok(m);
    }
    if char_idx == full_name_length - 2 {
        let m = vec![false, false, true, true, true, false];
        proof {
            assert(m@ =~= spec_order_mask(full_name_length as int, char_idx as int));
        }
        return Result::Ok(m);
    }
    let m = vec![false, true, true, true, true, false];
    proof {
        assert(m@ =~= spec_order_mask(full_name_length as int, char_idx as int));
    }
    Result::Ok(m)
}

/// The feasible length classes for the character at `char_idx` of a name of
/// `full_name_length` code points.
pub fn create_length_mask(full_name_length: usize, char_idx: usize) -> (mask: Vec<bool>)
    requires
        char_idx < full_name_length,
    ensures
        mask@ == spec_length_mask(full_name_length as int, char_idx as int),
        mask@.len() == 8,
{
    let min_family = char_idx + 1;
    let min_family_idx = if min_family > 4 {
        4
    } else {
        min_family
    };
    let max_family = full_name_length - 1;
    let max_family_idx = if max_family > 4 {
        4
    } else {
        max_family
    };
    let min_given = full_name_length - char_idx;
    let min_given_idx = if min_given > 4 {
        4
    } else {
        min_given
    };
    let max_given = full_name_length - 1;
    let max_given_idx = if max_given > 4 {
        4
    } else {
        max_given
    };
    let mut mask: Vec<bool> = Vec::new();
    let mut j: usize = 0;
    while j < 4
        invariant
            j <= 4,
            mask@.len() == j,
            min_family == char_idx + 1,
            min_family_idx == spec_clamp4(min_family as int),
            max_family == full_name_length - 1,
            max_family_idx == spec_clamp4(max_family as int),
            char_idx < full_name_length,
            forall|k: int|
                0 <= k < j ==> mask@[k] == spec_length_mask(
                    full_name_length as int,
                    char_idx as int,
                )[k],
        decreases 4 - j,
    {
        mask.push(min_family <= max_family && min_family_idx - 1 <= j && j < max_family_idx);
        j = j + 1;
    }
    let mut j: usize = 4;
    while j < 8
        invariant
            4 <= j <= 8,
            mask@.len() == j,
            min_given == full_name_length - char_idx,
            min_given_idx == spec_clamp4(min_given as int),
            max_given == full_name_length - 1,
            max_given_idx == spec_clamp4(max_given as int),
            char_idx < full_name_length,
            forall|k: int|
                0 <= k < j ==> mask@[k] == spec_length_mask(
                    full_name_length as int,
                    char_idx as int,
                )[k],
        decreases 8 - j,
    {
        mask.push(min_given <= max_given && min_given_idx - 1 <= j - 4 && j - 4 < max_given_idx);
        j = j + 1;
    }
    proof {
        assert(mask@ =~= spec_length_mask(full_name_length as int, char_idx as int));
    }
    mask
}

/// The order class of the character at `idx_in_piece` within its piece.
pub fn calc_current_order_status(
    piece_of_divided_name: &String,
    idx_in_piece_of_divided_name: usize,
    is_family: bool,
) -> (status: usize)
    requires
        idx_in_piece_of_divided_name < piece_of_divided_name@.len(),
    ensures
        status == spec_order_status(
            piece_of_divided_name@.len() as int,
            idx_in_piece_of_divided_name as int,
            is_family,
        ),
        status < 6,
{
    if idx_in_piece_of_divided_name == 0 {
        if is_family {
            0
        } else {
            3
        }
    } else if idx_in_piece_of_divided_name == piece_of_divided_name.as_str().unicode_len() - 1 {
        if is_family {
            2
        } else {
            5
        }
    } else {
        if is_family {
            1
        } else {
            4
        }
    }
}

/// The length class of a piece.
pub fn calc_current_length_status(piece_of_divided_name: &String, is_family: bool) -> (status:
    usize)
    requires
        1 <= piece_of_divided_name@.len(),
    ensures
        status == spec_length_status(piece_of_divided_name@.len() as int, is_family),
        status < 8,
{
    let piece_of_divided_name_length = piece_of_divided_name.as_str().unicode_len();
    let length_for_get_status = if piece_of_divided_name_length <= 4 {
        piece_of_divided_name_length
    } else {
        4
    };
    if is_family {
        length_for_get_status - 1
    } else {
        length_for_get_status - 1 + 4
    }
}

/// The order contribution of the character at `j` of the piece that starts
/// at `start` of a name of `full_len` code points.  The first and the last
/// character of the whole name are never ambiguous and contribute nothing.
pub open spec fn spec_order_term(
    repo: KanjiStatisticsRepository,
    piece: Seq<char>,
    full_len: int,
    start: int,
    j: int,
) -> int {
    let abs = start + j;
    if abs == 0 || abs == full_len - 1 {
        0
    } else {
        let stat = repo.spec_get(seq![piece[j]]);
        spec_contribution(
            stat.order_counts@,
            spec_order_mask(full_len, abs),
            spec_order_status(piece.len() as int, j, start == 0),
        )
    }
}

/// The sum of the order contributions of the first `n` characters.
pub open spec fn spec_order_score_to(
    repo: KanjiStatisticsRepository,
    piece: Seq<char>,
    full_len: int,
    start: int,
    n: int,
) -> int
    decreases n,
{
    if n <= 0 {
        0
    } else {
        spec_order_score_to(repo, piece, full_len, start, n - 1) + spec_order_term(
            repo,
            piece,
            full_len,
            start,
            n - 1,
        )
    }
}

/// The order score of a whole piece.
pub open spec fn spec_order_score(
    repo: KanjiStatisticsRepository,
    piece: Seq<char>,
    full_len: int,
    start: int,
) -> int {
    spec_order_score_to(repo, piece, full_len, start, piece.len() as int)
}

/// The length contribution of the character at `j` of the piece that
/// starts at `start`.
pub open spec fn spec_length_term(
    repo: KanjiStatisticsRepository,
    piece: Seq<char>,
    full_len: int,
    start: int,
    j: int,
) -> int {
    let stat = repo.spec_get(seq![piece[j]]);
    spec_contribution(
        stat.length_counts@,
        spec_length_mask(full_len, start + j),
        spec_length_status(piece.len() as int, start == 0),
    )
}

/// The sum of the length contributions of the first `n` characters.
pub open spec fn spec_length_score_to(
    repo: KanjiStatisticsRepository,
    piece: Seq<char>,
    full_len: int,
    start: int,
    n: int,
) -> int
    decreases n,
{
    if n <= 0 {
        0
    } else {
        spec_length_score_to(repo, piece, full_len, start, n - 1) + spec_length_term(
            repo,
            piece,
            full_len,
            start,
            n - 1,
        )
    }
}

/// The length score of a whole piece.
pub open spec fn spec_length_score(
    repo: KanjiStatisticsRepository,
    piece: Seq<char>,
    full_len: int,
    start: int,
) -> int {
    spec_length_score_to(repo, piece, full_len, start, piece.len() as int)
}

/// Each order contribution is a probability in fixed-point units.
pub proof fn lemma_order_term_in_unit(
    repo: KanjiStatisticsRepository,
    piece: Seq<char>,
    full_len: int,
    start: int,
    j: int,
)
    requires
        repo.wf(),
        0 <= j < piece.len(),
    ensures
        0 <= spec_order_term(repo, piece, full_len, start, j) <= SCORE_SCALE,
{
    let abs = start + j;
    if !(abs == 0 || abs == full_len - 1) {
        let stat = repo.spec_get(seq![piece[j]]);
        assert(stat.wf());
        lemma_contribution_in_unit(
            stat.order_counts@,
            spec_order_mask(full_len, abs),
            spec_order_status(piece.len() as int, j, start == 0),
        );
    }
}

/// Each length contribution is a probability in fixed-point units.
pub proof fn lemma_length_term_in_unit(
    repo: KanjiStatisticsRepository,
    piece: Seq<char>,
    full_len: int,
    start: int,
    j: int,
)
    requires
        repo.wf(),
        0 <= j < piece.len(),
    ensures
        0 <= spec_length_term(repo, piece, full_len, start, j) <= SCORE_SCALE,
{
    let stat = repo.spec_get(seq![piece[j]]);
    assert(stat.wf());
    lemma_contribution_in_unit(
        stat.length_counts@,
        spec_length_mask(full_len, start + j),
        spec_length_status(piece.len() as int, start == 0),
    );
}

/// An order score over `n` characters stays within `n` fixed-point units.
pub proof fn lemma_order_score_to_bounds(
    repo: KanjiStatisticsRepository,
    piece: Seq<char>,
    full_len: int,
    start: int,
    n: int,
)
    requires
        repo.wf(),
        0 <= n <= piece.len(),
    ensures
        0 <= spec_order_score_to(repo, piece, full_len, start, n) <= n * SCORE_SCALE,
    decreases n,
{
    if n > 0 {
        lemma_order_score_to_bounds(repo, piece, full_len, start, n - 1);
        lemma_order_term_in_unit(repo, piece, full_len, start, n - 1);
        assert(n * SCORE_SCALE == (n - 1) * SCORE_SCALE + SCORE_SCALE) by (nonlinear_arith);
    }
}

/// A length score over `n` characters stays within `n` fixed-point units.
pub proof fn lemma_length_score_to_bounds(
    repo: KanjiStatisticsRepository,
    piece: Seq<char>,
    full_len: int,
    start: int,
    n: int,
)
    requires
        repo.wf(),
        0 <= n <= piece.len(),
    ensures
        0 <= spec_length_score_to(repo, piece, full_len, start, n) <= n * SCORE_SCALE,
    decreases n,
{
    if n > 0 {
        lemma_length_score_to_bounds(repo, piece, full_len, start, n - 1);
        lemma_length_term_in_unit(repo, piece, full_len, start, n - 1);
        assert(n * SCORE_SCALE == (n - 1) * SCORE_SCALE + SCORE_SCALE) by (nonlinear_arith);
    }
}

/// A family piece's order score never counts its first character, which is
/// the first character of the whole name: only `len - 1` characters can
/// contribute.
pub proof fn lemma_order_score_family_le(
    repo: KanjiStatisticsRepository,
    piece: Seq<char>,
    full_len: int,
    n: int,
)
    requires
        repo.wf(),
        1 <= n <= piece.len(),
    ensures
        0 <= spec_order_score_to(repo, piece, full_len, 0, n) <= (n - 1) * SCORE_SCALE,
    decreases n,
{
    if n == 1 {
        assert(spec_order_score_to(repo, piece, full_len, 0, 1) == spec_order_score_to(
            repo,
            piece,
            full_len,
            0,
            0,
        ) + spec_order_term(repo, piece, full_len, 0, 0));
        assert(spec_order_term(repo, piece, full_len, 0, 0) == 0);
    } else {
        lemma_order_score_family_le(repo, piece, full_len, n - 1);
        lemma_order_term_in_unit(repo, piece, full_len, 0, n - 1);
        assert((n - 1) * SCORE_SCALE == (n - 2) * SCORE_SCALE + SCORE_SCALE) by (nonlinear_arith);
    }
}

/// A given piece's order score never counts its last character, which is
/// the last character of the whole name.
pub proof fn lemma_order_score_given_le(
    repo: KanjiStatisticsRepository,
    piece: Seq<char>,
    full_len: int,
    start: int,
)
    requires
        repo.wf(),
        1 <= piece.len(),
        start + piece.len() == full_len,
    ensures
        0 <= spec_order_score(repo, piece, full_len, start) <= (piece.len() - 1) * SCORE_SCALE,
{
    let n = piece.len() as int;
    lemma_order_score_to_bounds(repo, piece, full_len, start, n - 1);
    assert(spec_order_term(repo, piece, full_len, start, n - 1) == 0);
}

/// The order score of one piece of a split name, summed over its
/// characters; the never-ambiguous first and last character of the whole
/// name contribute nothing, and a character whose masked counts vanish is
/// skipped.
pub fn calc_order_score(
    kanji_statistics_repository: &KanjiStatisticsRepository,
    piece_of_divided_name: &String,
    full_name_length: usize,
    start_index: usize,
) -> (score: u128)
    requires
        kanji_statistics_repository.wf(),
        start_index + piece_of_divided_name@.len() <= full_name_length,
    ensures
        score == spec_order_score(
            *kanji_statistics_repository,
            piece_of_divided_name@,
            full_name_length as int,
            start_index as int,
        ),
        score <= piece_of_divided_name@.len() * SCORE_SCALE,
{
    let is_family = start_index == 0;
    let piece_len = piece_of_divided_name.as_str().unicode_len();
    let mut scores: u128 = 0;
    let mut j: usize = 0;
    while j < piece_len
        invariant
            kanji_statistics_repository.wf(),
            piece_len == piece_of_divided_name@.len(),
            start_index + piece_len <= full_name_length,
            is_family == (start_index == 0),
            j <= piece_len,
            scores == spec_order_score_to(
                *kanji_statistics_repository,
                piece_of_divided_name@,
                full_name_length as int,
                start_index as int,
                j as int,
            ),
            scores <= (j as int) * SCORE_SCALE,
        decreases piece_len - j,
    {
        let ghost repo = *kanji_statistics_repository;
        let ghost piece_view = piece_of_divided_name@;
        proof {
            lemma_order_term_in_unit(
                repo,
                piece_view,
                full_name_length as int,
                start_index as int,
                j as int,
            );
            lemma_mul_inequality(j + 1 as int, piece_len as int, SCORE_SCALE as int);
        }
        let current_index = start_index + j;
        if current_index != 0 && current_index != full_name_length - 1 {
            let mask = match create_order_mask(full_name_length, current_index) {
                Result::Ok(m) => m,
                Result::Err(_) => {
                    proof {
                        assert(false);
                    }
                    Vec::new()
                },
            };
            let current_order_status_idx = calc_current_order_status(
                piece_of_divided_name,
                j,
                is_family,
            );
            let kanji = piece_of_divided_name.as_str().substring_char(j, j + 1).to_owned();
            let stat = kanji_statistics_repository.get(&kanji);
            proof {
                assert(kanji@ =~= seq![piece_view[j as int]]);
                assert(stat.wf());
            }
            let mut total: u64 = 0;
            let mut i: usize = 0;
            while i < 6
                invariant
                    i <= 6,
                    stat.order_counts@.len() == 6,
                    mask@.len() == 6,
                    total == spec_masked_sum_to(stat.order_counts@, mask@, i as int),
                    total <= (i as int) * (u32::MAX as int),
                decreases 6 - i,
            {
                if mask[i] {
                    total = total + stat.order_counts[i] as u64;
                }
                i = i + 1;
            }
            if total != 0 {
                let masked_at_status: u64 = if mask[current_order_status_idx] {
                    stat.order_counts[current_order_status_idx] as u64
                } else {
                    0
                };
                proof {
                    if mask@[current_order_status_idx as int] {
                        lemma_masked_sum_elem(
                            stat.order_counts@,
                            mask@,
                            6,
                            current_order_status_idx as int,
                        );
                    } else {
                        lemma_masked_sum_nonneg(stat.order_counts@, mask@, 6);
                    }
                    lemma_frac_le_scale(masked_at_status as int, total as int);
                }
                let term: u128 = (masked_at_status as u128 * SCORE_SCALE as u128) / (
                total as u128);
                proof {
                    assert(term as int == spec_order_term(
                        repo,
                        piece_view,
                        full_name_length as int,
                        start_index as int,
                        j as int,
                    ));
                }
                scores = scores + term;
            }
        }
        j = j + 1;
    }
    scores
}

/// The length score of one piece of a split name, summed over its
/// characters; a character whose masked counts vanish is skipped.
pub fn calc_length_score(
    kanji_statistics_repository: &KanjiStatisticsRepository,
    piece_of_divided_name: &String,
    full_name_length: usize,
    start_index: usize,
) -> (score: u128)
    requires
        kanji_statistics_repository.wf(),
        start_index + piece_of_divided_name@.len() <= full_name_length,
    ensures
        score == spec_length_score(
            *kanji_statistics_repository,
            piece_of_divided_name@,
            full_name_length as int,
            start_index as int,
        ),
        score <= piece_of_divided_name@.len() * SCORE_SCALE,
{
    let is_family = start_index == 0;
    let piece_len = piece_of_divided_name.as_str().unicode_len();
    let mut scores: u128 = 0;
    let mut j: usize = 0;
    while j < piece_len
        invariant
            kanji_statistics_repository.wf(),
            piece_len == piece_of_divided_name@.len(),
            start_index + piece_len <= full_name_length,
            is_family == (start_index == 0),
            j <= piece_len,
            scores == spec_length_score_to(
                *kanji_statistics_repository,
                piece_of_divided_name@,
                full_name_length as int,
                start_index as int,
                j as int,
            ),
            scores <= (j as int) * SCORE_SCALE,
        decreases piece_len - j,
    {
        let ghost repo = *kanji_statistics_repository;
        let ghost piece_view = piece_of_divided_name@;
        proof {
            lemma_length_term_in_unit(
                repo,
                piece_view,
                full_name_length as int,
                start_index as int,
                j as int,
            );
            lemma_mul_inequality(j + 1 as int, piece_len as int, SCORE_SCALE as int);
        }
        let current_idx = start_index + j;
        let mask = create_length_mask(full_name_length, current_idx);
        let current_length_status_idx = calc_current_length_status(
            piece_of_divided_name,
            is_family,
        );
        let kanji = piece_of_divided_name.as_str().substring_char(j, j + 1).to_owned();
        let stat = kanji_statistics_repository.get(&kanji);
        proof {
            assert(kanji@ =~= seq![piece_view[j as int]]);
            assert(stat.wf());
        }
        let mut total: u64 = 0;
        let mut i: usize = 0;
        while i < 8
            invariant
                i <= 8,
                stat.length_counts@.len() == 8,
                mask@.len() == 8,
                total == spec_masked_sum_to(stat.length_counts@, mask@, i as int),
                total <= (i as int) * (u32::MAX as int),
            decreases 8 - i,
        {
            if mask[i] {
                total = total + stat.length_counts[i] as u64;
            }
            i = i + 1;
        }
        if total != 0 {
            let masked_at_status: u64 = if mask[current_length_status_idx] {
                stat.length_counts[current_length_status_idx] as u64
            } else {
                0
            };
            proof {
                if mask@[current_length_status_idx as int] {
                    lemma_masked_sum_elem(
                        stat.length_counts@,
                        mask@,
                        8,
                        current_length_status_idx as int,
                    );
                } else {
                    lemma_masked_sum_nonneg(stat.length_counts@, mask@, 8);
                }
                lemma_frac_le_scale(masked_at_status as int, total as int);
            }
            let term: u128 = (masked_at_status as u128 * SCORE_SCALE as u128) / (total as u128);
            proof {
                assert(term as int == spec_length_term(
                    repo,
                    piece_view,
                    full_name_length as int,
                    start_index as int,
                    j as int,
                ));
            }
            scores = scores + term;
        }
        j = j + 1;
    }
    scores
}

} // verus!
