use vstd::prelude::*;

verus! {

/// Scores are exact fixed-point numbers: the integer `v` stands for the real
/// number `v / SCORE_SCALE`.
pub const SCORE_SCALE: u64 = 4294967296;

/// The one failure a division can report: the undivided name is shorter than
/// two code points.
#[derive(Clone, Copy, Debug, PartialEq, Eq)]
pub enum NameDividerError {
    InvalidInput,
}

impl NameDividerError {
    /// The human-readable account of the failure.
    pub fn message(&self) -> (m: &'static str)
        ensures
            m@ == "Name length needs at least 2 chars."@,
    {
        "Name length needs at least 2 chars."
    }
}

/// The mathematical model of a confidence: either certainty from the rule
/// path, or the raw candidate scores with the index of the winner.
pub ghost enum ScoreModel {
    Certain,
    Softmax { raw_scores: Seq<int>, chosen: int },
}

impl ScoreModel {
    /// A scored confidence always points at the first candidate that
    /// attains the maximum raw score.
    pub open spec fn wf(self) -> bool {
        match self {
            ScoreModel::Certain => true,
            ScoreModel::Softmax { raw_scores, chosen } => {
                &&& 0 < raw_scores.len()
                &&& 0 <= chosen < raw_scores.len()
                &&& forall|i: int| 0 <= i < raw_scores.len() ==> raw_scores[i] <= raw_scores[chosen]
                &&& forall|i: int| 0 <= i < chosen ==> raw_scores[i] < raw_scores[chosen]
            },
        }
    }
}

/// The mathematical model of a divided name.
pub ghost struct DividedNameModel {
    pub family: Seq<char>,
    pub given: Seq<char>,
    pub separator: Seq<char>,
    pub score: ScoreModel,
    pub algorithm: Seq<char>,
}

impl DividedNameModel {
    /// Both pieces are non-empty and the confidence is well-formed.
    pub open spec fn wf(self) -> bool {
        &&& 0 < self.family.len()
        &&& 0 < self.given.len()
        &&& self.score.wf()
    }
}

/// The confidence attached to a division.
///
/// The rule-based path is certain of its cut, which renders as the score 1.
/// The scored path keeps the raw score of every candidate split, in
/// fixed-point units of [`SCORE_SCALE`], together with the index of the
/// winning split; its softmax confidence is
/// `exp(raw[chosen]) / (exp(raw[0]) + ... + exp(raw[n-1]))`, a value that an
/// adapter renders from this data.
#[derive(Debug)]
pub enum Score {
    Certain,
    Softmax { raw_scores: Vec<i64>, chosen: usize },
}

impl View for Score {
    type V = ScoreModel;

    open spec fn view(&self) -> ScoreModel {
        match *self {
            Score::Certain => ScoreModel::Certain,
            Score::Softmax { raw_scores, chosen } => ScoreModel::Softmax {
                raw_scores: raw_scores@.map_values(|x: i64| x as int),
                chosen: chosen as int,
            },
        }
    }
}

impl Score {
    /// A scored confidence always points at the first candidate that
    /// attains the maximum raw score.
    pub open spec fn wf(self) -> bool {
        self@.wf()
    }

    /// Whether this confidence came from the rule-based path.
    pub fn is_certain(&self) -> (r: bool)
        ensures
            r == (self is Certain),
    {
        match self {
            Score::Certain => true,
            Score::Softmax { .. } => false,
        }
    }
}

/// A divided name: the family part, the given part, the separator the caller
/// asked for, the confidence of the cut, and the label of the method that
/// decided it.
#[derive(Debug)]
pub struct DividedName {
    pub family: String,
    pub given: String,
    pub separator: String,
    pub score: Score,
    pub algorithm: String,
}

impl View for DividedName {
    type V = DividedNameModel;

    open spec fn view(&self) -> DividedNameModel {
        DividedNameModel {
            family: self.family@,
            given: self.given@,
            separator: self.separator@,
            score: self.score@,
            algorithm: self.algorithm@,
        }
    }
}

impl DividedName {
    /// Every divided name this engine produces has a non-empty family part,
    /// a non-empty given part and a well-formed confidence.
    pub open spec fn wf(self) -> bool {
        self@.wf()
    }
}

} // verus!
