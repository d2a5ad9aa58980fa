//! Synthetic datasets: which grids make up a split, in which order their points
//! are sampled, and how samples are laid out in CSV files.
//!
//! A dataset covers a rectangle of the permittivity plane with a training grid
//! and two coarser grids for validation and test. A dense patch near vacuum can be
//! laid over each.

use super::csv_table::{
    column_of, csv_headers, field_fault, find_column, parse_record_value, plain_field, plain_table,
    row_views, CsvTable, Reading, TableUse,
};
use super::tensor::{DType, Device, Tensor};
use crate::base::error::{
    msg_error, number_error, piece_views, CoreError, Piece, PieceView,
};
use crate::base::s_params::S11S21;
use crate::base::validation::{
    dims_text, format_dims, is_non_negative, is_positive, not_non_negative, not_ordered,
    not_positive, validate_non_negative_f64, validate_non_negative_range, validate_positive_f64,
    validate_positive_range, validate_positive_usize,
};
use crate::scalar::{Scalar, ONE_BITS};
use crate::text::{
    align_right, concat2, concat3, copy_of, decimal, decimal_digits, right_aligned, views,
};
use vstd::prelude::*;
use vstd::string::StringExecFns;

verus! {

/// What a synthetic dataset is generated from.
#[derive(Clone, Copy, Debug, PartialEq, Eq)]
pub struct DataGenerationConfig {
    /// Sample thickness in meters.
    pub d: Scalar,
    /// Width of the rectangular waveguide in meters.
    pub a: Scalar,
    /// Operating frequency in hertz.
    pub frequency: Scalar,
    /// Inclusive range of the real part of the permittivity.
    pub eps_prime_range: (Scalar, Scalar),
    /// Inclusive range of the loss factor.
    pub eps_double_prime_range: (Scalar, Scalar),
    /// Points of the training grid along the real part.
    pub n_eps_prime_train: usize,
    /// Points of the training grid along the loss factor.
    pub n_eps_double_prime_train: usize,
    /// The share of all samples that the training split is meant to have.
    pub train_ratio: Scalar,
    /// How far the validation grid keeps from the ends of the ranges.
    pub val_offset: (Scalar, Scalar),
    /// How far the test grid keeps from the ends of the ranges.
    pub test_offset: (Scalar, Scalar),
    pub seed: u64,
    /// Range of the real part that the dense patch covers.
    pub dense_patch_eps_prime_range: (Scalar, Scalar),
    /// Range of the loss factor that the dense patch covers.
    pub dense_patch_eps_double_prime_range: (Scalar, Scalar),
    /// Points of the training patch along either axis; a zero turns all patches
    /// off.
    pub dense_patch_n_train: (usize, usize),
    /// Points of the validation and test patches along either axis; a zero turns
    /// these two off.
    pub dense_patch_n_eval: (usize, usize),
    /// How far the validation patch keeps from the ends of the patch ranges.
    pub dense_patch_val_offset: (Scalar, Scalar),
    /// How far the test patch keeps from the ends of the patch ranges.
    pub dense_patch_test_offset: (Scalar, Scalar),
}

/// The configuration of the standard dataset: a training grid of 200 by 100 points
/// over real parts from 1 to 200 and loss factors from 0 to 100, in a WR-90 guide
/// at 8.2 GHz, without a dense patch.
pub open spec fn standard_config() -> DataGenerationConfig {
    DataGenerationConfig {
        d: Scalar { bits: 0x3f58_9374_bc6a_7efa },
        a: Scalar { bits: 0x3f97_689c_a18b_d662 },
        frequency: Scalar { bits: 0x41fe_8c21_2000_0000 },
        eps_prime_range: (Scalar { bits: ONE_BITS }, Scalar { bits: 0x4069_0000_0000_0000 }),
        eps_double_prime_range: (Scalar { bits: 0 }, Scalar { bits: 0x4059_0000_0000_0000 }),
        n_eps_prime_train: 200,
        n_eps_double_prime_train: 100,
        train_ratio: Scalar { bits: 0x3fe9_9999_9999_999a },
        val_offset: (Scalar { bits: 0x3fc9_9999_9999_999a }, Scalar { bits: 0x3fb9_9999_9999_999a }),
        test_offset: (
            Scalar { bits: 0x3fe0_0000_0000_0000 },
            Scalar { bits: 0x3fd0_0000_0000_0000 },
        ),
        seed: 42,
        dense_patch_eps_prime_range: (
            Scalar { bits: ONE_BITS },
            Scalar { bits: 0x4004_0000_0000_0000 },
        ),
        dense_patch_eps_double_prime_range: (
            Scalar { bits: 0 },
            Scalar { bits: 0x3ffc_0000_0000_0000 },
        ),
        dense_patch_n_train: (0, 0),
        dense_patch_n_eval: (0, 0),
        dense_patch_val_offset: (
            Scalar { bits: 0x3fa9_9999_9999_999a },
            Scalar { bits: 0x3f99_9999_9999_999a },
        ),
        dense_patch_test_offset: (
            Scalar { bits: 0x3fb9_9999_9999_999a },
            Scalar { bits: 0x3fa9_9999_9999_999a },
        ),
    }
}

impl Default for DataGenerationConfig {
    fn default() -> (result: DataGenerationConfig)
        ensures
            result == standard_config(),
    {
        DataGenerationConfig {
            d: Scalar::from_bits(0x3f58_9374_bc6a_7efa),
            a: Scalar::from_bits(0x3f97_689c_a18b_d662),
            frequency: Scalar::from_bits(0x41fe_8c21_2000_0000),
            eps_prime_range: (Scalar::one(), Scalar::from_bits(0x4069_0000_0000_0000)),
            eps_double_prime_range: (Scalar::zero(), Scalar::from_bits(0x4059_0000_0000_0000)),
            n_eps_prime_train: 200,
            n_eps_double_prime_train: 100,
            train_ratio: Scalar::from_bits(0x3fe9_9999_9999_999a),
            val_offset: (
                Scalar::from_bits(0x3fc9_9999_9999_999a),
                Scalar::from_bits(0x3fb9_9999_9999_999a),
            ),
            test_offset: (
                Scalar::from_bits(0x3fe0_0000_0000_0000),
                Scalar::from_bits(0x3fd0_0000_0000_0000),
            ),
            seed: 42,
            dense_patch_eps_prime_range: (
                Scalar::one(),
                Scalar::from_bits(0x4004_0000_0000_0000),
            ),
            dense_patch_eps_double_prime_range: (
                Scalar::zero(),
                Scalar::from_bits(0x3ffc_0000_0000_0000),
            ),
            dense_patch_n_train: (0, 0),
            dense_patch_n_eval: (0, 0),
            dense_patch_val_offset: (
                Scalar::from_bits(0x3fa9_9999_9999_999a),
                Scalar::from_bits(0x3f99_9999_9999_999a),
            ),
            dense_patch_test_offset: (
                Scalar::from_bits(0x3fb9_9999_9999_999a),
                Scalar::from_bits(0x3fa9_9999_9999_999a),
            ),
        }
    }
}

/// The fault of a value that has to be positive.
pub open spec fn positive_fault(name: Seq<char>, value: Scalar) -> Option<Seq<PieceView>> {
    if is_positive(value) {
        None
    } else {
        Some(not_positive(name, value))
    }
}

/// The fault of a value that must not be negative.
pub open spec fn non_negative_fault(name: Seq<char>, value: Scalar) -> Option<Seq<PieceView>> {
    if is_non_negative(value) {
        None
    } else {
        Some(not_non_negative(name, value))
    }
}

/// The fault of a range that has to be positive and in order.
pub open spec fn positive_range_fault(name: Seq<char>, range: (Scalar, Scalar)) -> Option<
    Seq<PieceView>,
> {
    if positive_fault(name + ".min"@, range.0) is Some {
        positive_fault(name + ".min"@, range.0)
    } else if positive_fault(name + ".max"@, range.1) is Some {
        positive_fault(name + ".max"@, range.1)
    } else if range.0.rank() > range.1.rank() {
        Some(not_ordered(name, range.0, range.1))
    } else {
        None
    }
}

/// The fault of a range that must not be negative and has to be in order.
pub open spec fn non_negative_range_fault(name: Seq<char>, range: (Scalar, Scalar)) -> Option<
    Seq<PieceView>,
> {
    if non_negative_fault(name + ".min"@, range.0) is Some {
        non_negative_fault(name + ".min"@, range.0)
    } else if non_negative_fault(name + ".max"@, range.1) is Some {
        non_negative_fault(name + ".max"@, range.1)
    } else if range.0.rank() > range.1.rank() {
        Some(not_ordered(name, range.0, range.1))
    } else {
        None
    }
}

/// The fault of a count that must not be zero.
pub open spec fn count_fault(name: Seq<char>, value: usize) -> Option<Seq<PieceView>> {
    if value > 0 {
        None
    } else {
        Some(seq![PieceView::Text(name + " must be > 0, got 0"@)])
    }
}

/// The fault of a training share outside the open unit interval.
pub open spec fn train_ratio_fault(ratio: Scalar) -> Option<Seq<PieceView>> {
    if ratio.finite() && ratio.rank() > 0 && ratio.lt(Scalar { bits: ONE_BITS }) {
        None
    } else {
        Some(
            seq![
                PieceView::Text("train_ratio must be in the open interval (0, 1), got "@),
                PieceView::Number(ratio),
            ],
        )
    }
}

/// The first of two faults.
pub open spec fn first_fault(a: Option<Seq<PieceView>>, b: Option<Seq<PieceView>>) -> Option<
    Seq<PieceView>,
> {
    if a is Some {
        a
    } else {
        b
    }
}

/// The fault of a waveguide, given what its own check says against it.
pub open spec fn waveguide_fault(complaint: Option<Seq<char>>) -> Option<Seq<PieceView>> {
    match complaint {
        Some(text) => Some(seq![PieceView::Text("invalid waveguide config: "@ + text)]),
        None => None,
    }
}

/// The first fault of a configuration: the waveguide, then the fields in the order
/// of the grid they describe.
pub open spec fn config_fault(
    config: DataGenerationConfig,
    complaint: Option<Seq<char>>,
) -> Option<Seq<PieceView>> {
    let from_offsets = first_fault(
        non_negative_fault("val_offset.eps_prime"@, config.val_offset.0),
        first_fault(
            non_negative_fault("val_offset.eps_double_prime"@, config.val_offset.1),
            first_fault(
                non_negative_fault("test_offset.eps_prime"@, config.test_offset.0),
                non_negative_fault("test_offset.eps_double_prime"@, config.test_offset.1),
            ),
        ),
    );
    let from_counts = first_fault(
        count_fault("n_eps_prime_train"@, config.n_eps_prime_train),
        first_fault(
            count_fault("n_eps_double_prime_train"@, config.n_eps_double_prime_train),
            first_fault(train_ratio_fault(config.train_ratio), from_offsets),
        ),
    );
    first_fault(
        waveguide_fault(complaint),
        first_fault(
            positive_fault("operating frequency"@, config.frequency),
            first_fault(
                positive_range_fault("eps_prime_range"@, config.eps_prime_range),
                first_fault(
                    non_negative_range_fault(
                        "eps_double_prime_range"@,
                        config.eps_double_prime_range,
                    ),
                    from_counts,
                ),
            ),
        ),
    )
}

/// Checks a configuration. `complaint` is what the check of the waveguide itself,
/// of thickness and width, has against it.
pub fn validate_config(config: &DataGenerationConfig, complaint: Option<&str>) -> (result: Result<
    (),
    CoreError,
>)
    ensures
        ({
            let fault = config_fault(
                *config,
                match complaint {
                    Some(text) => Some(text@),
                    None => None,
                },
            );
            &&& result is Ok <==> fault is None
            &&& result matches Err(e) ==> e.tells(fault->0)
        }),
{
    if let Some(text) = complaint {
        return Err(CoreError::Msg(concat2("invalid waveguide config: ", text)));
    }
    if let Err(e) = validate_positive_f64("operating frequency", config.frequency) {
        return Err(e);
    }
    if let Err(e) = validate_positive_range("eps_prime_range", config.eps_prime_range) {
        return Err(e);
    }
    if let Err(e) = validate_non_negative_range(
        "eps_double_prime_range",
        config.eps_double_prime_range,
    ) {
        return Err(e);
    }
    if let Err(e) = validate_positive_usize("n_eps_prime_train", config.n_eps_prime_train) {
        return Err(e);
    }
    if let Err(e) = validate_positive_usize(
        "n_eps_double_prime_train",
        config.n_eps_double_prime_train,
    ) {
        return Err(e);
    }
    let ratio = config.train_ratio;
    if !ratio.is_finite() || ratio.at_most(Scalar::zero()) || Scalar::one().at_most(ratio) {
        return Err(
            number_error(
                copy_of("train_ratio must be in the open interval (0, 1), got "),
                ratio,
            ),
        );
    }
    if let Err(e) = validate_non_negative_f64("val_offset.eps_prime", config.val_offset.0) {
        return Err(e);
    }
    if let Err(e) = validate_non_negative_f64("val_offset.eps_double_prime", config.val_offset.1) {
        return Err(e);
    }
    if let Err(e) = validate_non_negative_f64("test_offset.eps_prime", config.test_offset.0) {
        return Err(e);
    }
    if let Err(e) = validate_non_negative_f64(
        "test_offset.eps_double_prime",
        config.test_offset.1,
    ) {
        return Err(e);
    }
    Ok(())
}

/// The number of points of the training grid.
pub fn training_grid_size(config: &DataGenerationConfig) -> (result: Result<usize, CoreError>)
    ensures
        result is Ok <==> config.n_eps_prime_train * config.n_eps_double_prime_train <= usize::MAX,
        result matches Ok(n) ==> n == config.n_eps_prime_train * config.n_eps_double_prime_train,
        result matches Err(e) ==> e.says("training grid size overflowed usize"@),
{
    match config.n_eps_prime_train.checked_mul(config.n_eps_double_prime_train) {
        Some(n) => Ok(n),
        None => Err(msg_error("training grid size overflowed usize")),
    }
}

/// The dimensions of the validation and test grids: twice as many points along the
/// real part as along the loss factor.
///
/// `target` is the number of points aimed at, and `side` the square root of half
/// of it, both rounded towards zero.
pub fn holdout_grid_dims(target: Scalar, side: usize) -> (result: Result<
    (usize, usize),
    CoreError,
>)
    ensures
        ({
            let height = if side > 0 {
                side as int
            } else {
                1
            };
            &&& result is Ok <==> is_positive(target) && height * 2 <= usize::MAX
            &&& result matches Ok(dims) ==> dims.1 == height && dims.0 == height * 2
            &&& result matches Err(e) ==> e.tells(if !is_positive(target) {
                seq![
                    PieceView::Text("derived holdout size must be finite and positive, got "@),
                    PieceView::Number(target),
                ]
            } else {
                seq![PieceView::Text("holdout grid width overflowed usize"@)]
            })
        }),
{
    if !target.is_finite() || target.at_most(Scalar::zero()) {
        return Err(
            number_error(copy_of("derived holdout size must be finite and positive, got "), target),
        );
    }
    let height: usize = if side > 0 {
        side
    } else {
        1
    };
    match height.checked_mul(2) {
        Some(width) => Ok((width, height)),
        None => Err(msg_error("holdout grid width overflowed usize")),
    }
}

/// The message for an offset that leaves nothing of a range.
pub open spec fn collapsed(axis: Seq<char>, offset: Scalar, range: (Scalar, Scalar)) -> Seq<
    PieceView,
> {
    seq![
        PieceView::Text(axis + " offset "@),
        PieceView::Number(offset),
        PieceView::Text(" collapses the range ("@),
        PieceView::Number(range.0),
        PieceView::Text(", "@),
        PieceView::Number(range.1),
        PieceView::Text(")"@),
    ]
}

fn collapsed_error(axis: &str, offset: Scalar, range: (Scalar, Scalar)) -> (result: CoreError)
    ensures
        result.tells(collapsed(axis@, offset, range)),
{
    let mut pieces: Vec<Piece> = Vec::new();
    pieces.push(Piece::Text(concat2(axis, " offset ")));
    pieces.push(Piece::Number(offset));
    pieces.push(Piece::Text(copy_of(" collapses the range (")));
    pieces.push(Piece::Number(range.0));
    pieces.push(Piece::Text(copy_of(", ")));
    pieces.push(Piece::Number(range.1));
    pieces.push(Piece::Text(copy_of(")")));
    proof {
        assert(piece_views(pieces@) == collapsed(axis@, offset, range));
    }
    CoreError::Numeric(pieces)
}

/// Checks that offsets leave something of both ranges of a grid.
///
/// `eps_prime_bounds` and `eps_double_prime_bounds` are the ranges with the offset
/// added to the lower and taken from the upper end.
pub fn check_grid_bounds(
    request: &GridRequest,
    eps_prime_bounds: (Scalar, Scalar),
    eps_double_prime_bounds: (Scalar, Scalar),
) -> (result: Result<(), CoreError>)
    ensures
        result is Ok <==> !eps_prime_bounds.1.lt(eps_prime_bounds.0)
            && !eps_double_prime_bounds.1.lt(eps_double_prime_bounds.0),
        result matches Err(e) ==> e.tells(if eps_prime_bounds.1.lt(eps_prime_bounds.0) {
            collapsed("eps_prime"@, request.offset.0, request.eps_prime_range)
        } else {
            collapsed("eps_double_prime"@, request.offset.1, request.eps_double_prime_range)
        }),
{
    if eps_prime_bounds.1.less_than(eps_prime_bounds.0) {
        return Err(collapsed_error("eps_prime", request.offset.0, request.eps_prime_range));
    }
    if eps_double_prime_bounds.1.less_than(eps_double_prime_bounds.0) {
        return Err(
            collapsed_error("eps_double_prime", request.offset.1, request.eps_double_prime_range),
        );
    }
    Ok(())
}

/// A part of a dataset.
#[derive(Clone, Copy, Debug, PartialEq, Eq, Structural)]
pub enum Split {
    Train,
    Validation,
    Test,
}

/// A grid that a split takes samples from.
#[derive(Clone, Copy, Debug, PartialEq, Eq)]
pub struct GridRequest {
    pub split: Split,
    pub eps_prime_range: (Scalar, Scalar),
    pub eps_double_prime_range: (Scalar, Scalar),
    pub n_eps_prime: usize,
    pub n_eps_double_prime: usize,
    pub offset: (Scalar, Scalar),
    /// The grid is a dense patch.
    pub dense_patch: bool,
}

/// The bulk grid of a split.
pub open spec fn bulk_grid(
    config: DataGenerationConfig,
    split: Split,
    dims: (usize, usize),
    offset: (Scalar, Scalar),
) -> GridRequest {
    GridRequest {
        split,
        eps_prime_range: config.eps_prime_range,
        eps_double_prime_range: config.eps_double_prime_range,
        n_eps_prime: dims.0,
        n_eps_double_prime: dims.1,
        offset,
        dense_patch: false,
    }
}

/// The dense patch of a split.
pub open spec fn patch_grid(
    config: DataGenerationConfig,
    split: Split,
    dims: (usize, usize),
    offset: (Scalar, Scalar),
) -> GridRequest {
    GridRequest {
        split,
        eps_prime_range: config.dense_patch_eps_prime_range,
        eps_double_prime_range: config.dense_patch_eps_double_prime_range,
        n_eps_prime: dims.0,
        n_eps_double_prime: dims.1,
        offset,
        dense_patch: true,
    }
}

/// Both densities are non-zero.
pub open spec fn dense(n: (usize, usize)) -> bool {
    n.0 > 0 && n.1 > 0
}

/// The grids of a dataset, in the order in which they are sampled: the three bulk
/// grids, the training patch if it is dense, and the other two patches if those
/// are dense as well.
pub open spec fn grids_of(config: DataGenerationConfig, holdout: (usize, usize)) -> Seq<
    GridRequest,
> {
    let none = (Scalar { bits: 0 }, Scalar { bits: 0 });
    let bulk = seq![
        bulk_grid(
            config,
            Split::Train,
            (config.n_eps_prime_train, config.n_eps_double_prime_train),
            none,
        ),
        bulk_grid(config, Split::Validation, holdout, config.val_offset),
        bulk_grid(config, Split::Test, holdout, config.test_offset),
    ];
    let train_patch = seq![patch_grid(config, Split::Train, config.dense_patch_n_train, none)];
    let eval_patches = seq![
        patch_grid(
            config,
            Split::Validation,
            config.dense_patch_n_eval,
            config.dense_patch_val_offset,
        ),
        patch_grid(
            config,
            Split::Test,
            config.dense_patch_n_eval,
            config.dense_patch_test_offset,
        ),
    ];
    if !dense(config.dense_patch_n_train) {
        bulk
    } else if !dense(config.dense_patch_n_eval) {
        bulk + train_patch
    } else {
        bulk + train_patch + eval_patches
    }
}

/// The grids of a dataset whose validation and test grids have the dimensions
/// `holdout`.
pub fn plan_grids(config: &DataGenerationConfig, holdout: (usize, usize)) -> (result: Vec<
    GridRequest,
>)
    ensures
        result@ == grids_of(*config, holdout),
        forall|k: int|
            0 <= k < result@.len() ==> {
                let grid = #[trigger] result@[k];
                &&& grid.dense_patch ==> grid.eps_prime_range == config.dense_patch_eps_prime_range
                    && grid.eps_double_prime_range == config.dense_patch_eps_double_prime_range
                &&& !grid.dense_patch ==> grid.eps_prime_range == config.eps_prime_range
                    && grid.eps_double_prime_range == config.eps_double_prime_range
            },
{
    let none = (Scalar::zero(), Scalar::zero());
    let mut plan: Vec<GridRequest> = Vec::new();
    plan.push(
        GridRequest {
            split: Split::Train,
            eps_prime_range: config.eps_prime_range,
            eps_double_prime_range: config.eps_double_prime_range,
            n_eps_prime: config.n_eps_prime_train,
            n_eps_double_prime: config.n_eps_double_prime_train,
            offset: none,
            dense_patch: false,
        },
    );
    plan.push(
        GridRequest {
            split: Split::Validation,
            eps_prime_range: config.eps_prime_range,
            eps_double_prime_range: config.eps_double_prime_range,
            n_eps_prime: holdout.0,
            n_eps_double_prime: holdout.1,
            offset: config.val_offset,
            dense_patch: false,
        },
    );
    plan.push(
        GridRequest {
            split: Split::Test,
            eps_prime_range: config.eps_prime_range,
            eps_double_prime_range: config.eps_double_prime_range,
            n_eps_prime: holdout.0,
            n_eps_double_prime: holdout.1,
            offset: config.test_offset,
            dense_patch: false,
        },
    );
    let train_n: (usize, usize) = config.dense_patch_n_train;
    let eval_n: (usize, usize) = config.dense_patch_n_eval;
    if train_n.0 > 0 && train_n.1 > 0 {
        plan.push(
            GridRequest {
                split: Split::Train,
                eps_prime_range: config.dense_patch_eps_prime_range,
                eps_double_prime_range: config.dense_patch_eps_double_prime_range,
                n_eps_prime: train_n.0,
                n_eps_double_prime: train_n.1,
                offset: none,
                dense_patch: true,
            },
        );
        if eval_n.0 > 0 && eval_n.1 > 0 {
            plan.push(
                GridRequest {
                    split: Split::Validation,
                    eps_prime_range: config.dense_patch_eps_prime_range,
                    eps_double_prime_range: config.dense_patch_eps_double_prime_range,
                    n_eps_prime: eval_n.0,
                    n_eps_double_prime: eval_n.1,
                    offset: config.dense_patch_val_offset,
                    dense_patch: true,
                },
            );
            plan.push(
                GridRequest {
                    split: Split::Test,
                    eps_prime_range: config.dense_patch_eps_prime_range,
                    eps_double_prime_range: config.dense_patch_eps_double_prime_range,
                    n_eps_prime: eval_n.0,
                    n_eps_double_prime: eval_n.1,
                    offset: config.dense_patch_test_offset,
                    dense_patch: true,
                },
            );
        }
    }
    proof {
        assert(plan@ == grids_of(*config, holdout));
    }
    plan
}

/// Every planned grid that is marked as a dense patch covers the patch window of the
/// configuration, and every other grid the full ranges. Training grids keep no distance
/// from the ends of their ranges; the others keep that of their split, and of their kind.
/// Bulk grids have the sizes for the bulk, patches those for patches.
pub proof fn grids_cover_their_windows(
    config: DataGenerationConfig,
    holdout: (usize, usize),
    k: int,
)
    requires
        0 <= k < grids_of(config, holdout).len(),
    ensures
        ({
            let grid = grids_of(config, holdout)[k];
            let none = (Scalar { bits: 0 }, Scalar { bits: 0 });
            &&& grid.dense_patch <==> k >= 3
            &&& grid.dense_patch ==> {
                &&& grid.eps_prime_range == config.dense_patch_eps_prime_range
                &&& grid.eps_double_prime_range == config.dense_patch_eps_double_prime_range
                &&& config.dense_patch_n_train.0 > 0 && config.dense_patch_n_train.1 > 0
            }
            &&& !grid.dense_patch ==> {
                &&& grid.eps_prime_range == config.eps_prime_range
                &&& grid.eps_double_prime_range == config.eps_double_prime_range
            }
            &&& match grid.split {
                Split::Train => {
                    &&& grid.offset == none
                    &&& (grid.n_eps_prime, grid.n_eps_double_prime) == if grid.dense_patch {
                        config.dense_patch_n_train
                    } else {
                        (config.n_eps_prime_train, config.n_eps_double_prime_train)
                    }
                },
                Split::Validation => {
                    &&& grid.offset == if grid.dense_patch {
                        config.dense_patch_val_offset
                    } else {
                        config.val_offset
                    }
                    &&& (grid.n_eps_prime, grid.n_eps_double_prime) == if grid.dense_patch {
                        config.dense_patch_n_eval
                    } else {
                        holdout
                    }
                },
                Split::Test => {
                    &&& grid.offset == if grid.dense_patch {
                        config.dense_patch_test_offset
                    } else {
                        config.test_offset
                    }
                    &&& (grid.n_eps_prime, grid.n_eps_double_prime) == if grid.dense_patch {
                        config.dense_patch_n_eval
                    } else {
                        holdout
                    }
                },
            }
            &&& grid.dense_patch && !(grid.split is Train) ==> config.dense_patch_n_eval.0 > 0
                && config.dense_patch_n_eval.1 > 0
        }),
{
}

/// Each split has one bulk grid. It has one patch as well where patches are on: for the
/// training split where the training patch has points, for the others where their own
/// patches have points too. The order is training, validation, test.
pub proof fn every_split_has_its_grids(config: DataGenerationConfig, holdout: (usize, usize))
    ensures
        ({
            let grids = grids_of(config, holdout);
            let train = config.dense_patch_n_train.0 > 0 && config.dense_patch_n_train.1 > 0;
            let eval = config.dense_patch_n_eval.0 > 0 && config.dense_patch_n_eval.1 > 0;
            &&& grids.len() == if train && eval {
                6int
            } else if train {
                4
            } else {
                3
            }
            &&& grids[0].split is Train && grids[1].split is Validation && grids[2].split is Test
            &&& train ==> grids[3].split is Train
            &&& train && eval ==> grids[4].split is Validation && grids[5].split is Test
        }),
{
}

/// A sample of a dense patch has its permittivity inside the patch window, and a sample
/// of the bulk inside the full ranges, provided that the points of each grid lie inside
/// the ranges of the grid.
pub proof fn samples_lie_in_their_windows(
    config: DataGenerationConfig,
    holdout: (usize, usize),
    samples: Seq<Vec<PermittivitySample>>,
    split: Split,
)
    requires
        samples.len() == grids_of(config, holdout).len(),
        forall|k: int, i: int|
            0 <= k < samples.len() && 0 <= i < samples[k]@.len() ==> {
                let grid = grids_of(config, holdout)[k];
                let s = #[trigger] samples[k]@[i];
                &&& grid.eps_prime_range.0.le(s.eps_prime)
                &&& s.eps_prime.le(grid.eps_prime_range.1)
                &&& grid.eps_double_prime_range.0.le(s.eps_double_prime)
                &&& s.eps_double_prime.le(grid.eps_double_prime_range.1)
            },
    ensures
        forall|i: int|
            0 <= i < split_samples(grids_of(config, holdout), samples, split).len() ==> {
                let s = #[trigger] split_samples(grids_of(config, holdout), samples, split)[i];
                let (first, second) = if s.is_dense_patch {
                    (
                        config.dense_patch_eps_prime_range,
                        config.dense_patch_eps_double_prime_range,
                    )
                } else {
                    (config.eps_prime_range, config.eps_double_prime_range)
                };
                &&& first.0.le(s.eps_prime) && s.eps_prime.le(first.1)
                &&& second.0.le(s.eps_double_prime) && s.eps_double_prime.le(second.1)
            },
{
    let plan = grids_of(config, holdout);
    assert forall|k: int| 0 <= k < plan.len() implies ({
        let grid = #[trigger] plan[k];
        &&& grid.dense_patch ==> grid.eps_prime_range == config.dense_patch_eps_prime_range
            && grid.eps_double_prime_range == config.dense_patch_eps_double_prime_range
        &&& !grid.dense_patch ==> grid.eps_prime_range == config.eps_prime_range
            && grid.eps_double_prime_range == config.eps_double_prime_range
    }) by {
        grids_cover_their_windows(config, holdout, k);
    }
    lemma_samples_keep_their_place(config, plan, samples, split);
}

proof fn lemma_samples_keep_their_place(
    config: DataGenerationConfig,
    plan: Seq<GridRequest>,
    samples: Seq<Vec<PermittivitySample>>,
    split: Split,
)
    requires
        samples.len() == plan.len(),
        forall|k: int|
            0 <= k < plan.len() ==> {
                let grid = #[trigger] plan[k];
                &&& grid.dense_patch ==> grid.eps_prime_range == config.dense_patch_eps_prime_range
                    && grid.eps_double_prime_range == config.dense_patch_eps_double_prime_range
                &&& !grid.dense_patch ==> grid.eps_prime_range == config.eps_prime_range
                    && grid.eps_double_prime_range == config.eps_double_prime_range
            },
        forall|k: int, i: int|
            0 <= k < samples.len() && 0 <= i < samples[k]@.len() ==> {
                let s = #[trigger] samples[k]@[i];
                &&& plan[k].eps_prime_range.0.le(s.eps_prime)
                &&& s.eps_prime.le(plan[k].eps_prime_range.1)
                &&& plan[k].eps_double_prime_range.0.le(s.eps_double_prime)
                &&& s.eps_double_prime.le(plan[k].eps_double_prime_range.1)
            },
    ensures
        forall|i: int|
            0 <= i < split_samples(plan, samples, split).len() ==> {
                let s = #[trigger] split_samples(plan, samples, split)[i];
                let (first, second) = if s.is_dense_patch {
                    (
                        config.dense_patch_eps_prime_range,
                        config.dense_patch_eps_double_prime_range,
                    )
                } else {
                    (config.eps_prime_range, config.eps_double_prime_range)
                };
                &&& first.0.le(s.eps_prime) && s.eps_prime.le(first.1)
                &&& second.0.le(s.eps_double_prime) && s.eps_double_prime.le(second.1)
            },
    decreases plan.len(),
{
    if plan.len() > 0 {
        let shorter = plan.drop_last();
        let fewer = samples.drop_last();
        let last = plan.len() - 1;
        assert forall|k: int, i: int| 0 <= k < fewer.len() && 0 <= i < fewer[k]@.len() implies ({
            let s = #[trigger] fewer[k]@[i];
            &&& shorter[k].eps_prime_range.0.le(s.eps_prime)
            &&& s.eps_prime.le(shorter[k].eps_prime_range.1)
            &&& shorter[k].eps_double_prime_range.0.le(s.eps_double_prime)
            &&& s.eps_double_prime.le(shorter[k].eps_double_prime_range.1)
        }) by {
            assert(fewer[k] == samples[k]);
            assert(samples[k]@[i] == fewer[k]@[i]);
            assert(shorter[k] == plan[k]);
        }
        assert forall|k: int| 0 <= k < shorter.len() implies #[trigger] shorter[k] == plan[k] by {}
        lemma_samples_keep_their_place(config, shorter, fewer, split);
        let before = split_samples(shorter, fewer, split);
        let all = split_samples(plan, samples, split);
        assert forall|i: int| 0 <= i < all.len() implies ({
            let s = #[trigger] all[i];
            let (first, second) = if s.is_dense_patch {
                (config.dense_patch_eps_prime_range, config.dense_patch_eps_double_prime_range)
            } else {
                (config.eps_prime_range, config.eps_double_prime_range)
            };
            &&& first.0.le(s.eps_prime) && s.eps_prime.le(first.1)
            &&& second.0.le(s.eps_double_prime) && s.eps_double_prime.le(second.1)
        }) by {
            if i < before.len() {
                assert(all[i] == before[i]);
            } else {
                let j = i - before.len();
                let own = samples[last]@[j];
                assert(samples.last()@[j] == own);
                assert(plan[last] == plan.last());
                assert(all[i] == marked(samples.last()@, plan.last().dense_patch)[j]);
            }
        }
    }
}

/// The points of a grid, the loss factor varying fastest.
pub open spec fn mesh(xs: Seq<Scalar>, ys: Seq<Scalar>) -> Seq<(Scalar, Scalar)>
    decreases xs.len(),
{
    if xs.len() == 0 {
        Seq::<(Scalar, Scalar)>::empty()
    } else {
        mesh(xs.drop_last(), ys) + ys.map_values(|y: Scalar| (xs.last(), y))
    }
}

/// Point number `i * ys.len() + j` of a mesh lies at `(xs[i], ys[j])`, and the
/// mesh has no other points.
pub proof fn mesh_runs_along_the_second_axis(xs: Seq<Scalar>, ys: Seq<Scalar>)
    ensures
        mesh(xs, ys).len() == xs.len() * ys.len(),
        forall|i: int, j: int|
            0 <= i < xs.len() && 0 <= j < ys.len() ==> #[trigger] point_of(xs, ys, i, j) == mesh(
                xs,
                ys,
            )[i * ys.len() + j],
    decreases xs.len(),
{
    if xs.len() == 0 {
        assert(0 * ys.len() == 0) by (nonlinear_arith);
    } else {
        let fewer = xs.drop_last();
        mesh_runs_along_the_second_axis(fewer, ys);
        let n = ys.len() as int;
        let last = xs.len() - 1;
        assert(xs.len() * n == fewer.len() * n + n) by (nonlinear_arith)
            requires
                xs.len() == fewer.len() + 1,
        ;
        assert forall|i: int, j: int| 0 <= i < xs.len() && 0 <= j < ys.len() implies #[trigger]
            point_of(xs, ys, i, j) == mesh(xs, ys)[i * ys.len() + j] by {
            if i < last {
                assert(0 <= i * n && i * n + n <= last * n) by (nonlinear_arith)
                    requires
                        0 <= i < last,
                        n >= 0,
                ;
                assert(point_of(fewer, ys, i, j) == mesh(fewer, ys)[i * n + j]);
            } else {
                assert(mesh(fewer, ys).len() == last * n);
            }
        }
    }
}

/// The point in column `i` and row `j` of a mesh.
pub open spec fn point_of(xs: Seq<Scalar>, ys: Seq<Scalar>, i: int, j: int) -> (Scalar, Scalar) {
    (xs[i], ys[j])
}

/// The points of a grid, the loss factor varying fastest.
pub fn grid_pairs(eps_prime_axis: &[Scalar], eps_double_prime_axis: &[Scalar]) -> (result: Result<
    Vec<(Scalar, Scalar)>,
    CoreError,
>)
    ensures
        result is Ok <==> eps_prime_axis@.len() * eps_double_prime_axis@.len() <= usize::MAX,
        result matches Ok(pairs) ==> pairs@ == mesh(eps_prime_axis@, eps_double_prime_axis@),
        result matches Err(e) ==> e.says("flattened grid size overflowed usize"@),
{
    let size: Option<usize> = eps_prime_axis.len().checked_mul(eps_double_prime_axis.len());
    if size.is_none() {
        return Err(msg_error("flattened grid size overflowed usize"));
    }
    let mut pairs: Vec<(Scalar, Scalar)> = Vec::new();
    let mut i: usize = 0;
    while i < eps_prime_axis.len()
        invariant
            i <= eps_prime_axis@.len(),
            pairs@ == mesh(eps_prime_axis@.take(i as int), eps_double_prime_axis@),
        decreases eps_prime_axis@.len() - i,
    {
        let x = eps_prime_axis[i];
        let ghost before = pairs@;
        let ghost ys = eps_double_prime_axis@;
        let mut j: usize = 0;
        proof {
            assert(pairs@ == before + ys.take(0).map_values(|y: Scalar| (x, y)));
        }
        while j < eps_double_prime_axis.len()
            invariant
                j <= eps_double_prime_axis@.len(),
                ys == eps_double_prime_axis@,
                pairs@ == before + ys.take(j as int).map_values(|y: Scalar| (x, y)),
            decreases eps_double_prime_axis@.len() - j,
        {
            pairs.push((x, eps_double_prime_axis[j]));
            proof {
                assert(ys.take(j + 1).map_values(|y: Scalar| (x, y)) == ys.take(
                    j as int,
                ).map_values(|y: Scalar| (x, y)).push((x, ys[j as int])));
            }
            j += 1;
        }
        proof {
            let xs = eps_prime_axis@.take(i + 1);
            assert(ys.take(ys.len() as int) == ys);
            assert(xs.drop_last() == eps_prime_axis@.take(i as int));
            assert(xs.last() == x);
            assert(ys.map_values(|y: Scalar| (xs.last(), y)) == ys.map_values(
                |y: Scalar| (x, y),
            ));
        }
        i += 1;
    }
    proof {
        assert(eps_prime_axis@.take(eps_prime_axis@.len() as int) == eps_prime_axis@);
    }
    Ok(pairs)
}

/// One sample: its scattering parameters and its permittivity.
#[derive(Clone, Copy, Debug, PartialEq, Eq, Structural)]
pub struct PermittivitySample {
    pub s11_real: Scalar,
    pub s11_imag: Scalar,
    pub s21_real: Scalar,
    pub s21_imag: Scalar,
    pub eps_prime: Scalar,
    /// The loss factor, with a positive sign.
    pub eps_double_prime: Scalar,
    /// The sample comes from a dense patch.
    pub is_dense_patch: bool,
}

/// The sample at a point with the given scattering parameters.
pub open spec fn sample_at(point: (Scalar, Scalar), s: S11S21, dense_patch: bool) -> PermittivitySample {
    PermittivitySample {
        s11_real: s.s11_real,
        s11_imag: s.s11_imag,
        s21_real: s.s21_real,
        s21_imag: s.s21_imag,
        eps_prime: point.0,
        eps_double_prime: point.1,
        is_dense_patch: dense_patch,
    }
}

/// The samples of a grid's points, each with its scattering parameters.
pub open spec fn samples_at(
    points: Seq<(Scalar, Scalar)>,
    s: Seq<S11S21>,
    dense_patch: bool,
) -> Seq<PermittivitySample> {
    Seq::new(points.len(), |i: int| sample_at(points[i], s[i], dense_patch))
}

/// The samples of a grid's points, each with its scattering parameters.
pub fn make_samples(points: &Vec<(Scalar, Scalar)>, s_params: &Vec<S11S21>, dense_patch: bool) -> (result:
    Vec<PermittivitySample>)
    requires
        points@.len() == s_params@.len(),
    ensures
        result@ == samples_at(points@, s_params@, dense_patch),
{
    let mut result: Vec<PermittivitySample> = Vec::new();
    let mut i: usize = 0;
    while i < points.len()
        invariant
            i <= points@.len(),
            points@.len() == s_params@.len(),
            result@ == samples_at(points@.take(i as int), s_params@, dense_patch),
        decreases points@.len() - i,
    {
        let point: (Scalar, Scalar) = points[i];
        let s = s_params[i];
        result.push(
            PermittivitySample {
                s11_real: s.s11_real,
                s11_imag: s.s11_imag,
                s21_real: s.s21_real,
                s21_imag: s.s21_imag,
                eps_prime: point.0,
                eps_double_prime: point.1,
                is_dense_patch: dense_patch,
            },
        );
        proof {
            assert(samples_at(points@.take(i + 1), s_params@, dense_patch) == samples_at(
                points@.take(i as int),
                s_params@,
                dense_patch,
            ).push(sample_at(point, s, dense_patch)));
        }
        i += 1;
    }
    proof {
        assert(points@.take(points@.len() as int) == points@);
    }
    result
}

/// Train, validation and test samples, and what they were generated from.
#[derive(Debug)]
pub struct GeneratedDataset {
    pub train: Vec<PermittivitySample>,
    pub validation: Vec<PermittivitySample>,
    pub test: Vec<PermittivitySample>,
    pub config: DataGenerationConfig,
}

/// The samples with the mark of the grid they come from.
pub open spec fn marked(samples: Seq<PermittivitySample>, dense_patch: bool) -> Seq<
    PermittivitySample,
> {
    samples.map_values(
        |s: PermittivitySample| PermittivitySample { is_dense_patch: dense_patch, ..s },
    )
}

/// The samples of a split: those of its grids, in the order of the plan.
pub open spec fn split_samples(
    plan: Seq<GridRequest>,
    samples: Seq<Vec<PermittivitySample>>,
    split: Split,
) -> Seq<PermittivitySample>
    decreases plan.len(),
{
    if plan.len() == 0 {
        Seq::<PermittivitySample>::empty()
    } else {
        let before = split_samples(plan.drop_last(), samples.drop_last(), split);
        if plan.last().split == split {
            before + marked(samples.last()@, plan.last().dense_patch)
        } else {
            before
        }
    }
}

fn append_marked(
    target: &mut Vec<PermittivitySample>,
    samples: &Vec<PermittivitySample>,
    dense_patch: bool,
)
    ensures
        final(target)@ == old(target)@ + marked(samples@, dense_patch),
{
    let mut i: usize = 0;
    proof {
        assert(target@ == old(target)@ + marked(samples@.take(0), dense_patch));
    }
    while i < samples.len()
        invariant
            i <= samples@.len(),
            target@ == old(target)@ + marked(samples@.take(i as int), dense_patch),
        decreases samples@.len() - i,
    {
        let s = samples[i];
        target.push(PermittivitySample { is_dense_patch: dense_patch, ..s });
        proof {
            assert(marked(samples@.take(i + 1), dense_patch) == marked(
                samples@.take(i as int),
                dense_patch,
            ).push(PermittivitySample { is_dense_patch: dense_patch, ..s }));
        }
        i += 1;
    }
    proof {
        assert(samples@.take(samples@.len() as int) == samples@);
    }
}

/// Puts the samples of each planned grid into its split.
pub fn collect_dataset(
    config: &DataGenerationConfig,
    plan: &Vec<GridRequest>,
    samples: &Vec<Vec<PermittivitySample>>,
) -> (result: GeneratedDataset)
    requires
        plan@.len() == samples@.len(),
    ensures
        result.train@ == split_samples(plan@, samples@, Split::Train),
        result.validation@ == split_samples(plan@, samples@, Split::Validation),
        result.test@ == split_samples(plan@, samples@, Split::Test),
        result.config == *config,
{
    let mut train: Vec<PermittivitySample> = Vec::new();
    let mut validation: Vec<PermittivitySample> = Vec::new();
    let mut test: Vec<PermittivitySample> = Vec::new();
    let mut i: usize = 0;
    while i < plan.len()
        invariant
            i <= plan@.len(),
            plan@.len() == samples@.len(),
            train@ == split_samples(plan@.take(i as int), samples@.take(i as int), Split::Train),
            validation@ == split_samples(
                plan@.take(i as int),
                samples@.take(i as int),
                Split::Validation,
            ),
            test@ == split_samples(plan@.take(i as int), samples@.take(i as int), Split::Test),
        decreases plan@.len() - i,
    {
        proof {
            assert(plan@.take(i + 1).drop_last() == plan@.take(i as int));
            assert(samples@.take(i + 1).drop_last() == samples@.take(i as int));
            assert(plan@.take(i + 1).last() == plan@[i as int]);
            assert(samples@.take(i + 1).last() == samples@[i as int]);
        }
        match plan[i].split {
            Split::Train => append_marked(&mut train, &samples[i], plan[i].dense_patch),
            Split::Validation => append_marked(&mut validation, &samples[i], plan[i].dense_patch),
            Split::Test => append_marked(&mut test, &samples[i], plan[i].dense_patch),
        }
        i += 1;
    }
    proof {
        assert(plan@.take(plan@.len() as int) == plan@);
        assert(samples@.take(samples@.len() as int) == samples@);
    }
    GeneratedDataset { train, validation, test, config: *config }
}

impl GeneratedDataset {
    /// The number of samples over all splits.
    #[must_use]
    pub fn total_samples(&self) -> (result: usize)
        requires
            self.train@.len() + self.validation@.len() + self.test@.len() <= usize::MAX,
        ensures
            result == self.train@.len() + self.validation@.len() + self.test@.len(),
    {
        self.train.len() + self.validation.len() + self.test.len()
    }
}

/// Without a training patch no sample is marked as one of a patch.
pub proof fn bulk_datasets_hold_no_patch_samples(
    config: DataGenerationConfig,
    holdout: (usize, usize),
    samples: Seq<Vec<PermittivitySample>>,
    split: Split,
)
    requires
        !dense(config.dense_patch_n_train),
        samples.len() == grids_of(config, holdout).len(),
    ensures
        forall|i: int|
            0 <= i < split_samples(grids_of(config, holdout), samples, split).len()
                ==> !(#[trigger] split_samples(
                grids_of(config, holdout),
                samples,
                split,
            )[i]).is_dense_patch,
{
    let plan = grids_of(config, holdout);
    assert(forall|k: int| 0 <= k < plan.len() ==> !(#[trigger] plan[k]).dense_patch);
    lemma_marks_follow_the_plan(plan, samples, split);
}

proof fn lemma_marks_follow_the_plan(
    plan: Seq<GridRequest>,
    samples: Seq<Vec<PermittivitySample>>,
    split: Split,
)
    requires
        samples.len() == plan.len(),
        forall|k: int| 0 <= k < plan.len() ==> !(#[trigger] plan[k]).dense_patch,
    ensures
        forall|i: int|
            0 <= i < split_samples(plan, samples, split).len() ==> !(#[trigger] split_samples(
                plan,
                samples,
                split,
            )[i]).is_dense_patch,
    decreases plan.len(),
{
    if plan.len() > 0 {
        assert forall|k: int| 0 <= k < plan.drop_last().len() implies !(
        #[trigger] plan.drop_last()[k]).dense_patch by {
            assert(!plan[k].dense_patch);
        }
        assert(!plan[plan.len() - 1].dense_patch);
        lemma_marks_follow_the_plan(plan.drop_last(), samples.drop_last(), split);
        let before = split_samples(plan.drop_last(), samples.drop_last(), split);
        let all = split_samples(plan, samples, split);
        assert forall|i: int| 0 <= i < all.len() implies !(#[trigger] all[i]).is_dense_patch by {
            if i < before.len() {
                assert(all[i] == before[i]);
            }
        }
    }
}

/// A split has as many samples as its grids have together.
pub open spec fn split_size(
    plan: Seq<GridRequest>,
    samples: Seq<Vec<PermittivitySample>>,
    split: Split,
) -> nat
    decreases plan.len(),
{
    if plan.len() == 0 {
        0
    } else {
        split_size(plan.drop_last(), samples.drop_last(), split) + if plan.last().split == split {
            samples.last()@.len()
        } else {
            0
        }
    }
}

/// No sample of a planned grid is lost or added when the splits are put together.
pub proof fn splits_keep_every_sample(
    plan: Seq<GridRequest>,
    samples: Seq<Vec<PermittivitySample>>,
    split: Split,
)
    requires
        samples.len() == plan.len(),
    ensures
        split_samples(plan, samples, split).len() == split_size(plan, samples, split),
    decreases plan.len(),
{
    if plan.len() > 0 {
        splits_keep_every_sample(plan.drop_last(), samples.drop_last(), split);
    }
}

/// The same dataset without patches.
pub open spec fn without_patches(config: DataGenerationConfig) -> DataGenerationConfig {
    DataGenerationConfig { dense_patch_n_train: (0, 0), ..config }
}

/// How many samples of a patch a split has: none unless the training patch is dense, and
/// for validation and test none unless their own patches are dense as well.
pub open spec fn patch_size(config: DataGenerationConfig, split: Split) -> nat {
    if !dense(config.dense_patch_n_train) {
        0
    } else if split == Split::Train {
        (config.dense_patch_n_train.0 * config.dense_patch_n_train.1) as nat
    } else if !dense(config.dense_patch_n_eval) {
        0
    } else {
        (config.dense_patch_n_eval.0 * config.dense_patch_n_eval.1) as nat
    }
}

/// Every point of each planned grid has a sample.
pub open spec fn fully_sampled(
    plan: Seq<GridRequest>,
    samples: Seq<Vec<PermittivitySample>>,
) -> bool {
    &&& samples.len() == plan.len()
    &&& forall|k: int|
        0 <= k < plan.len() ==> (#[trigger] samples[k])@.len() == plan[k].n_eps_prime
            * plan[k].n_eps_double_prime
}

/// The samples of a grid that a split takes.
spec fn patch_part(
    grid: GridRequest,
    samples: Vec<PermittivitySample>,
    split: Split,
) -> Seq<PermittivitySample> {
    if grid.split == split {
        marked(samples@, grid.dense_patch)
    } else {
        Seq::<PermittivitySample>::empty()
    }
}

proof fn lemma_one_more_grid(
    plan: Seq<GridRequest>,
    samples: Seq<Vec<PermittivitySample>>,
    split: Split,
)
    requires
        plan.len() > 0,
        samples.len() == plan.len(),
    ensures
        split_samples(plan, samples, split) == split_samples(
            plan.drop_last(),
            samples.drop_last(),
            split,
        ) + patch_part(plan.last(), samples.last(), split),
{
    assert(split_samples(plan, samples, split) =~= split_samples(
        plan.drop_last(),
        samples.drop_last(),
        split,
    ) + patch_part(plan.last(), samples.last(), split));
}

proof fn lemma_patch_part(grid: GridRequest, samples: Vec<PermittivitySample>, split: Split)
    requires
        grid.dense_patch,
    ensures
        patch_part(grid, samples, split).len() == if grid.split == split {
            samples@.len()
        } else {
            0
        },
        forall|i: int|
            0 <= i < patch_part(grid, samples, split).len() ==> (#[trigger] patch_part(
                grid,
                samples,
                split,
            )[i]).is_dense_patch,
{
}

/// A dataset with patches is the one without them, followed in each split by the samples
/// of its patch: the grids of the bulk are the same and come first, none of their samples
/// is marked, and every sample behind them is.
pub proof fn patches_follow_the_bulk(
    config: DataGenerationConfig,
    holdout: (usize, usize),
    samples: Seq<Vec<PermittivitySample>>,
    split: Split,
)
    requires
        fully_sampled(grids_of(config, holdout), samples),
    ensures
        ({
            let plan = grids_of(config, holdout);
            let bare = grids_of(without_patches(config), holdout);
            let all = split_samples(plan, samples, split);
            let bulk = split_samples(bare, samples.take(3), split);
            &&& bare.len() == 3
            &&& plan.take(3) == bare
            &&& fully_sampled(bare, samples.take(3))
            &&& all.len() == bulk.len() + patch_size(config, split)
            &&& all.take(bulk.len() as int) == bulk
            &&& forall|i: int| 0 <= i < bulk.len() ==> !(#[trigger] all[i]).is_dense_patch
            &&& forall|i: int| bulk.len() <= i < all.len() ==> (#[trigger] all[i]).is_dense_patch
        }),
{
    let plan = grids_of(config, holdout);
    let bare = grids_of(without_patches(config), holdout);
    let bulk = split_samples(bare, samples.take(3), split);
    let all = split_samples(plan, samples, split);
    assert(plan.take(3) =~= bare);
    assert forall|k: int| 0 <= k < bare.len() implies (#[trigger] samples.take(3)[k])@.len()
        == bare[k].n_eps_prime * bare[k].n_eps_double_prime by {
        assert(samples[k]@.len() == plan[k].n_eps_prime * plan[k].n_eps_double_prime);
        assert(plan[k] == plan.take(3)[k]);
    }
    bulk_datasets_hold_no_patch_samples(without_patches(config), holdout, samples.take(3), split);
    let added = if !dense(config.dense_patch_n_train) {
        assert(plan =~= bare);
        assert(samples.take(3) =~= samples);
        Seq::<PermittivitySample>::empty()
    } else if !dense(config.dense_patch_n_eval) {
        assert(plan.drop_last() =~= bare);
        assert(samples.drop_last() =~= samples.take(3));
        lemma_one_more_grid(plan, samples, split);
        lemma_patch_part(plan[3], samples[3], split);
        patch_part(plan[3], samples[3], split)
    } else {
        let p5 = plan.drop_last();
        let s5 = samples.drop_last();
        let p4 = p5.drop_last();
        let s4 = s5.drop_last();
        assert(p4.drop_last() =~= bare);
        assert(s4.drop_last() =~= samples.take(3));
        assert(p4.last() == plan[3] && s4.last() == samples[3]);
        assert(p5.last() == plan[4] && s5.last() == samples[4]);
        lemma_one_more_grid(plan, samples, split);
        lemma_one_more_grid(p5, s5, split);
        lemma_one_more_grid(p4, s4, split);
        lemma_patch_part(plan[3], samples[3], split);
        lemma_patch_part(plan[4], samples[4], split);
        lemma_patch_part(plan[5], samples[5], split);
        patch_part(plan[3], samples[3], split) + patch_part(plan[4], samples[4], split)
            + patch_part(plan[5], samples[5], split)
    };
    assert(all =~= bulk + added);
    assert(added.len() == patch_size(config, split));
    assert(all.take(bulk.len() as int) =~= bulk);
    assert forall|i: int| 0 <= i < bulk.len() implies !(#[trigger] all[i]).is_dense_patch by {
        assert(all[i] == all.take(bulk.len() as int)[i]);
        assert(!bulk[i].is_dense_patch);
    }
}

/// The names of the CSV columns, in their order.
pub open spec fn sample_headers() -> Seq<Seq<char>> {
    seq![
        "S11_real"@,
        "S11_imag"@,
        "S21_real"@,
        "S21_imag"@,
        "eps_prim"@,
        "eps_secund"@,
    ]
}

/// The names of the CSV columns, in their order.
pub fn sample_csv_headers() -> (result: Vec<String>)
    ensures
        views(result@) == sample_headers(),
{
    let mut result: Vec<String> = Vec::new();
    result.push(copy_of("S11_real"));
    result.push(copy_of("S11_imag"));
    result.push(copy_of("S21_real"));
    result.push(copy_of("S21_imag"));
    result.push(copy_of("eps_prim"));
    result.push(copy_of("eps_secund"));
    proof {
        assert(views(result@) == sample_headers());
    }
    result
}

/// Where the six quantities of a sample stand in a table.
#[derive(Clone, Copy, Debug, PartialEq, Eq, Structural)]
pub struct CsvColumns {
    pub s11_real: usize,
    pub s11_imag: usize,
    pub s21_real: usize,
    pub s21_imag: usize,
    pub eps_prim: usize,
    pub eps_secund: usize,
}

/// The columns are those that the headers name.
pub open spec fn resolves(columns: CsvColumns, headers: Seq<Seq<char>>) -> bool {
    &&& column_of(headers, "s11_real"@) == Some(columns.s11_real as int)
    &&& column_of(headers, "s11_imag"@) == Some(columns.s11_imag as int)
    &&& column_of(headers, "s21_real"@) == Some(columns.s21_real as int)
    &&& column_of(headers, "s21_imag"@) == Some(columns.s21_imag as int)
    &&& column_of(headers, "eps_prim"@) == Some(columns.eps_prim as int)
    &&& column_of(headers, "eps_secund"@) == Some(columns.eps_secund as int)
}

/// The first of the six columns that the headers do not name.
pub open spec fn missing_column(headers: Seq<Seq<char>>) -> Option<Seq<char>> {
    if column_of(headers, "s11_real"@) is None {
        Some("s11_real"@)
    } else if column_of(headers, "s11_imag"@) is None {
        Some("s11_imag"@)
    } else if column_of(headers, "s21_real"@) is None {
        Some("s21_real"@)
    } else if column_of(headers, "s21_imag"@) is None {
        Some("s21_imag"@)
    } else if column_of(headers, "eps_prim"@) is None {
        Some("eps_prim"@)
    } else if column_of(headers, "eps_secund"@) is None {
        Some("eps_secund"@)
    } else {
        None
    }
}

/// Finds the six columns by their headers.
pub fn resolve_columns(headers: &Vec<String>, purpose: TableUse) -> (result: Result<
    CsvColumns,
    CoreError,
>)
    ensures
        result is Ok <==> missing_column(views(headers@)) is None,
        result matches Ok(columns) ==> resolves(columns, views(headers@)),
        result matches Err(e) ==> e.says(
            purpose.column_complaint() + missing_column(views(headers@))->0 + "'"@,
        ),
{
    let s11_real: usize = match find_column(headers, "s11_real", purpose) {
        Ok(i) => i,
        Err(e) => {
            return Err(e);
        },
    };
    let s11_imag: usize = match find_column(headers, "s11_imag", purpose) {
        Ok(i) => i,
        Err(e) => {
            return Err(e);
        },
    };
    let s21_real: usize = match find_column(headers, "s21_real", purpose) {
        Ok(i) => i,
        Err(e) => {
            return Err(e);
        },
    };
    let s21_imag: usize = match find_column(headers, "s21_imag", purpose) {
        Ok(i) => i,
        Err(e) => {
            return Err(e);
        },
    };
    let eps_prim: usize = match find_column(headers, "eps_prim", purpose) {
        Ok(i) => i,
        Err(e) => {
            return Err(e);
        },
    };
    let eps_secund: usize = match find_column(headers, "eps_secund", purpose) {
        Ok(i) => i,
        Err(e) => {
            return Err(e);
        },
    };
    Ok(CsvColumns { s11_real, s11_imag, s21_real, s21_imag, eps_prim, eps_secund })
}

/// A record as it was read: its fields, or the message of an error.
pub type RecordReading = Result<Vec<Reading>, String>;

/// The fault of reading a sample from the fields of a record.
pub open spec fn fields_fault(
    fields: Seq<Reading>,
    columns: CsvColumns,
    row: int,
    purpose: TableUse,
) -> Option<Seq<char>> {
    if field_fault(fields, columns.s11_real as int, row, "S11_real"@, purpose) is Some {
        field_fault(fields, columns.s11_real as int, row, "S11_real"@, purpose)
    } else if field_fault(fields, columns.s11_imag as int, row, "S11_imag"@, purpose) is Some {
        field_fault(fields, columns.s11_imag as int, row, "S11_imag"@, purpose)
    } else if field_fault(fields, columns.s21_real as int, row, "S21_real"@, purpose) is Some {
        field_fault(fields, columns.s21_real as int, row, "S21_real"@, purpose)
    } else if field_fault(fields, columns.s21_imag as int, row, "S21_imag"@, purpose) is Some {
        field_fault(fields, columns.s21_imag as int, row, "S21_imag"@, purpose)
    } else if field_fault(fields, columns.eps_prim as int, row, "eps_prim"@, purpose) is Some {
        field_fault(fields, columns.eps_prim as int, row, "eps_prim"@, purpose)
    } else {
        field_fault(fields, columns.eps_secund as int, row, "eps_secund"@, purpose)
    }
}

/// The fault of reading a sample from a record.
pub open spec fn record_fault(
    record: RecordReading,
    columns: CsvColumns,
    row: int,
    purpose: TableUse,
) -> Option<Seq<char>> {
    match record {
        Ok(fields) => fields_fault(fields@, columns, row, purpose),
        Err(text) => Some(purpose.record_complaint() + text@),
    }
}

/// The first fault among records; the first record stands on row two of its file.
pub open spec fn records_fault(
    records: Seq<RecordReading>,
    columns: CsvColumns,
    purpose: TableUse,
) -> Option<Seq<char>>
    decreases records.len(),
{
    if records.len() == 0 {
        None
    } else {
        match records_fault(records.drop_last(), columns, purpose) {
            Some(text) => Some(text),
            None => record_fault(records.last(), columns, records.len() as int + 1, purpose),
        }
    }
}

/// The sample that a record without a fault holds. Records do not tell dense
/// patches; all samples count as bulk.
pub open spec fn sample_of(fields: Seq<Reading>, columns: CsvColumns) -> PermittivitySample {
    PermittivitySample {
        s11_real: fields[columns.s11_real as int]->Ok_0,
        s11_imag: fields[columns.s11_imag as int]->Ok_0,
        s21_real: fields[columns.s21_real as int]->Ok_0,
        s21_imag: fields[columns.s21_imag as int]->Ok_0,
        eps_prime: fields[columns.eps_prim as int]->Ok_0,
        eps_double_prime: fields[columns.eps_secund as int]->Ok_0,
        is_dense_patch: false,
    }
}

fn sample_from_fields(
    fields: &Vec<Reading>,
    columns: &CsvColumns,
    row: u128,
    purpose: TableUse,
) -> (result: Result<PermittivitySample, CoreError>)
    ensures
        result is Ok <==> fields_fault(fields@, *columns, row as int, purpose) is None,
        result matches Ok(sample) ==> sample == sample_of(fields@, *columns),
        result matches Err(e) ==> e.says(fields_fault(fields@, *columns, row as int, purpose)->0),
{
    let s11_real = match parse_record_value(fields, columns.s11_real, row, "S11_real", purpose) {
        Ok(v) => v,
        Err(e) => {
            return Err(e);
        },
    };
    let s11_imag = match parse_record_value(fields, columns.s11_imag, row, "S11_imag", purpose) {
        Ok(v) => v,
        Err(e) => {
            return Err(e);
        },
    };
    let s21_real = match parse_record_value(fields, columns.s21_real, row, "S21_real", purpose) {
        Ok(v) => v,
        Err(e) => {
            return Err(e);
        },
    };
    let s21_imag = match parse_record_value(fields, columns.s21_imag, row, "S21_imag", purpose) {
        Ok(v) => v,
        Err(e) => {
            return Err(e);
        },
    };
    let eps_prime = match parse_record_value(fields, columns.eps_prim, row, "eps_prim", purpose) {
        Ok(v) => v,
        Err(e) => {
            return Err(e);
        },
    };
    let eps_double_prime = match parse_record_value(
        fields,
        columns.eps_secund,
        row,
        "eps_secund",
        purpose,
    ) {
        Ok(v) => v,
        Err(e) => {
            return Err(e);
        },
    };
    Ok(
        PermittivitySample {
            s11_real,
            s11_imag,
            s21_real,
            s21_imag,
            eps_prime,
            eps_double_prime,
            is_dense_patch: false,
        },
    )
}

proof fn lemma_records_fault_is_kept(
    records: Seq<RecordReading>,
    columns: CsvColumns,
    purpose: TableUse,
    k: int,
)
    requires
        0 <= k <= records.len(),
        records_fault(records.take(k), columns, purpose) is Some,
    ensures
        records_fault(records, columns, purpose) == records_fault(records.take(k), columns, purpose),
    decreases records.len(),
{
    if k < records.len() {
        assert(records.drop_last().take(k) == records.take(k));
        lemma_records_fault_is_kept(records.drop_last(), columns, purpose, k);
    } else {
        assert(records.take(k) == records);
    }
}

/// The samples of a table, whose fields have been read as numbers.
pub fn samples_from_records(
    columns: &CsvColumns,
    records: &Vec<RecordReading>,
    purpose: TableUse,
) -> (result: Result<Vec<PermittivitySample>, CoreError>)
    ensures
        result is Ok <==> records_fault(records@, *columns, purpose) is None,
        result matches Ok(samples) ==> samples@.len() == records@.len() && (forall|i: int|
            0 <= i < records@.len() ==> #[trigger] samples@[i] == sample_of(
                records@[i]->Ok_0@,
                *columns,
            )),
        result matches Err(e) ==> e.says(records_fault(records@, *columns, purpose)->0),
{
    let mut samples: Vec<PermittivitySample> = Vec::new();
    let mut i: usize = 0;
    while i < records.len()
        invariant
            i <= records@.len(),
            samples@.len() == i,
            records_fault(records@.take(i as int), *columns, purpose) is None,
            forall|k: int|
                0 <= k < i ==> #[trigger] samples@[k] == sample_of(
                    records@[k]->Ok_0@,
                    *columns,
                ),
        decreases records@.len() - i,
    {
        proof {
            assert(records@.take(i + 1).drop_last() == records@.take(i as int));
            assert(records@.take(i + 1).last() == records@[i as int]);
        }
        let read = match &records[i] {
            Ok(fields) => sample_from_fields(fields, columns, i as u128 + 2, purpose),
            Err(text) => Err(
                CoreError::Msg(concat2(purpose.record_words(), text.as_str())),
            ),
        };
        match read {
            Ok(sample) => {
                samples.push(sample);
            },
            Err(e) => {
                proof {
                    lemma_records_fault_is_kept(records@, *columns, purpose, i + 1);
                }
                return Err(e);
            },
        }
        i += 1;
    }
    proof {
        assert(records@.take(records@.len() as int) == records@);
    }
    Ok(samples)
}

/// The columns of a table whose headers are the sample headers.
pub open spec fn natural_columns() -> CsvColumns {
    CsvColumns {
        s11_real: 0,
        s11_imag: 1,
        s21_real: 2,
        s21_imag: 3,
        eps_prim: 4,
        eps_secund: 5,
    }
}

/// A table of samples: the sample headers, then rows of six plain fields.
pub open spec fn is_sample_table(rows: Seq<Seq<Seq<char>>>) -> bool {
    plain_table(rows) && rows[0] == sample_headers()
}

/// Each sample header is the first to name its own column.
proof fn lemma_sample_headers_resolve()
    ensures
        resolves(natural_columns(), sample_headers()),
        missing_column(sample_headers()) is None,
{
    reveal_strlit("S11_real");
    reveal_strlit("S11_imag");
    reveal_strlit("S21_real");
    reveal_strlit("S21_imag");
    reveal_strlit("eps_prim");
    reveal_strlit("eps_secund");
    reveal_strlit("s11_real");
    reveal_strlit("s11_imag");
    reveal_strlit("s21_real");
    reveal_strlit("s21_imag");
    assert("s11_real"@ =~= crate::text::lowered(sample_headers()[0]));
    lemma_header_is_column(0, "s11_real"@);
    assert("s11_imag"@ =~= crate::text::lowered(sample_headers()[1]));
    lemma_header_is_column(1, "s11_imag"@);
    assert("s21_real"@ =~= crate::text::lowered(sample_headers()[2]));
    lemma_header_is_column(2, "s21_real"@);
    assert("s21_imag"@ =~= crate::text::lowered(sample_headers()[3]));
    lemma_header_is_column(3, "s21_imag"@);
    assert("eps_prim"@ =~= crate::text::lowered(sample_headers()[4]));
    lemma_header_is_column(4, "eps_prim"@);
    assert("eps_secund"@ =~= crate::text::lowered(sample_headers()[5]));
    lemma_header_is_column(5, "eps_secund"@);
}

proof fn lemma_header_is_column(k: int, name: Seq<char>)
    requires
        0 <= k < 6,
        name == crate::text::lowered(sample_headers()[k]),
    ensures
        column_of(sample_headers(), name) == Some(k),
{
    reveal_strlit("S11_real");
    reveal_strlit("S11_imag");
    reveal_strlit("S21_real");
    reveal_strlit("S21_imag");
    reveal_strlit("eps_prim");
    reveal_strlit("eps_secund");
    let headers = sample_headers();
    super::csv_table::column_is_found_where_named(headers, name);
    assert forall|j: int| 0 <= j < 6 implies super::csv_table::names_column(
        #[trigger] headers[j],
        name,
    ) == (j == k) by {
        assert(!crate::text::white_space(headers[j][0]));
        assert(!crate::text::white_space(headers[j].last()));
        assert(crate::text::trimmed(headers[j]) == headers[j]);
        let a = crate::text::lowered(headers[j]);
        assert(crate::text::lowered(name) == name) by {
            assert forall|i: int| 0 <= i < name.len() implies crate::text::ascii_lower(
                #[trigger] name[i],
            ) == name[i] by {
                assert(name[i] == crate::text::ascii_lower(headers[k][i]));
            }
        }
        assert(a[0] == crate::text::ascii_lower(headers[j][0]));
        assert(a[1] == crate::text::ascii_lower(headers[j][1]));
        assert(a[4] == crate::text::ascii_lower(headers[j][4]));
        assert(name[0] == crate::text::ascii_lower(headers[k][0]));
        assert(name[1] == crate::text::ascii_lower(headers[k][1]));
        assert(name[4] == crate::text::ascii_lower(headers[k][4]));
    }
    assert(super::csv_table::names_column(headers[k], name));
}

/// Reads a table of samples from the bytes of a CSV file, and finds its columns.
///
/// Of a file that [`write_samples`] has made of plain fields it gives back the
/// fields, each in its own column.
pub fn read_samples(bytes: &[u8], purpose: TableUse) -> (result: Result<
    (CsvColumns, CsvTable),
    CoreError,
>)
    ensures
        result is Ok <==> csv_headers(bytes@) is Ok && missing_column(
            csv_headers(bytes@)->Ok_0,
        ) is None,
        result matches Ok(read) ==> csv_headers(bytes@) == super::csv_table::good_record(
            views(read.1.headers@),
        ) && resolves(read.0, views(read.1.headers@)) && super::csv_table::record_views(
            read.1.records@,
        ) == super::csv_table::csv_records(bytes@).map_values(
            |r: Result<Seq<Seq<char>>, Seq<char>>| super::csv_table::trimmed_record(r),
        ),
        result matches Err(e) ==> e.says(
            match csv_headers(bytes@) {
                Ok(headers) => purpose.column_complaint() + missing_column(headers)->0 + "'"@,
                Err(text) => purpose.headers_complaint() + text,
            },
        ),
        forall|rows: Seq<Seq<Seq<char>>>|
            is_sample_table(rows) && bytes@ == super::csv_table::ascii_bytes(
                #[trigger] super::csv_table::plain_csv(rows),
            ) ==> result is Ok && result->Ok_0.0 == natural_columns()
                && super::csv_table::record_views(result->Ok_0.1.records@)
                == super::csv_table::good_records(rows.skip(1)),
{
    let table = match super::csv_table::read_table(bytes, purpose) {
        Ok(table) => table,
        Err(e) => {
            return Err(e);
        },
    };
    proof {
        lemma_sample_headers_resolve();
    }
    let columns = match resolve_columns(&table.headers, purpose) {
        Ok(columns) => columns,
        Err(e) => {
            return Err(e);
        },
    };
    Ok((columns, table))
}

/// The bytes of a CSV file of samples, whose numbers have been written out.
pub fn write_samples(fields: Vec<Vec<String>>) -> (result: Result<Vec<u8>, CoreError>)
    ensures
        ({
            let rows = seq![sample_headers()] + row_views(fields@);
            let written = super::csv_table::csv_written(rows);
            &&& result is Ok <==> written is Ok
            &&& result matches Ok(bytes) ==> written == super::csv_table::bytes_view(
                Ok::<Vec<u8>, String>(bytes),
            )
            &&& result matches Err(e) ==> e.says("failed to write CSV record: "@ + written->Err_0)
            &&& is_sample_table(rows) ==> result is Ok && result->Ok_0@
                == super::csv_table::ascii_bytes(super::csv_table::plain_csv(rows))
        }),
{
    let ghost rows = seq![sample_headers()] + row_views(fields@);
    let mut table: Vec<Vec<String>> = Vec::new();
    table.push(sample_csv_headers());
    let mut rest = fields;
    table.append(&mut rest);
    proof {
        assert(row_views(table@) == rows);
    }
    super::csv_table::write_table(&table)
}

/// Rows of six plain fields make a table of samples.
pub proof fn plain_rows_make_a_sample_table(rows: Seq<Seq<Seq<char>>>)
    requires
        forall|r: int| 0 <= r < rows.len() ==> (#[trigger] rows[r]).len() == 6,
        forall|r: int, c: int|
            0 <= r < rows.len() && 0 <= c < 6 ==> plain_field(#[trigger] rows[r][c]),
    ensures
        is_sample_table(seq![sample_headers()] + rows),
{
    reveal_strlit("S11_real");
    reveal_strlit("S11_imag");
    reveal_strlit("S21_real");
    reveal_strlit("S21_imag");
    reveal_strlit("eps_prim");
    reveal_strlit("eps_secund");
    let table = seq![sample_headers()] + rows;
    assert forall|r: int, c: int| 0 <= r < table.len() && 0 <= c < table[r].len() implies plain_field(
        #[trigger] table[r][c],
    ) by {
        if r > 0 {
            assert(plain_field(rows[r - 1][c]));
        }
    }
}

/// The fields of a sample, each value written out by `write`.
pub open spec fn written_row(
    s: PermittivitySample,
    write: spec_fn(Scalar) -> Seq<char>,
) -> Seq<Seq<char>> {
    sample_row(s).map_values(write)
}

/// The values of a sample are finite.
pub open spec fn finite_sample(s: PermittivitySample) -> bool {
    forall|c: int| 0 <= c < 6 ==> (#[trigger] sample_row(s)[c]).finite()
}

/// Samples of no patch that are written to a CSV file are read back as they were, in
/// order and bit for bit, provided that `write` gives plain fields of which `read` makes
/// the same numbers again. The rows are a table that [`write_samples`] puts down and
/// [`read_samples`] gives back; `records` are their fields as they were read.
pub proof fn written_samples_come_back(
    samples: Seq<PermittivitySample>,
    write: spec_fn(Scalar) -> Seq<char>,
    read: spec_fn(Seq<char>) -> Reading,
    records: Seq<RecordReading>,
    purpose: TableUse,
)
    requires
        forall|v: Scalar|
            v.finite() ==> plain_field(#[trigger] write(v)) && read(write(v)) == Ok::<
                Scalar,
                String,
            >(v),
        forall|i: int|
            0 <= i < samples.len() ==> finite_sample(#[trigger] samples[i])
                && !samples[i].is_dense_patch,
        records.len() == samples.len(),
        forall|i: int|
            0 <= i < samples.len() ==> (#[trigger] records[i]) is Ok && records[i]->Ok_0@
                == written_row(samples[i], write).map_values(read),
    ensures
        is_sample_table(
            seq![sample_headers()] + samples.map_values(
                |s: PermittivitySample| written_row(s, write),
            ),
        ),
        records_fault(records, natural_columns(), purpose) is None,
        forall|i: int|
            0 <= i < samples.len() ==> sample_of(
                (#[trigger] records[i])->Ok_0@,
                natural_columns(),
            ) == samples[i],
{
    let rows = samples.map_values(|s: PermittivitySample| written_row(s, write));
    assert forall|r: int, c: int| 0 <= r < rows.len() && 0 <= c < 6 implies plain_field(
        #[trigger] rows[r][c],
    ) by {
        assert(finite_sample(samples[r]));
        assert(sample_row(samples[r])[c].finite());
        assert(rows[r][c] == write(sample_row(samples[r])[c]));
    }
    plain_rows_make_a_sample_table(rows);
    assert forall|i: int| 0 <= i < samples.len() implies record_fault(
        #[trigger] records[i],
        natural_columns(),
        i + 2,
        purpose,
    ) is None && sample_of(records[i]->Ok_0@, natural_columns()) == samples[i] by {
        let fields = records[i]->Ok_0@;
        assert(finite_sample(samples[i]));
        assert forall|c: int| 0 <= c < 6 implies #[trigger] fields[c] == Ok::<Scalar, String>(
            sample_row(samples[i])[c],
        ) by {
            assert(sample_row(samples[i])[c].finite());
            assert(fields[c] == read(write(sample_row(samples[i])[c])));
        }
        assert(fields[0] is Ok && fields[1] is Ok && fields[2] is Ok && fields[3] is Ok
            && fields[4] is Ok && fields[5] is Ok);
    }
    lemma_faultless_records(records, natural_columns(), purpose);
}

proof fn lemma_faultless_records(
    records: Seq<RecordReading>,
    columns: CsvColumns,
    purpose: TableUse,
)
    requires
        forall|i: int|
            0 <= i < records.len() ==> record_fault(
                #[trigger] records[i],
                columns,
                i + 2,
                purpose,
            ) is None,
    ensures
        records_fault(records, columns, purpose) is None,
    decreases records.len(),
{
    if records.len() > 0 {
        let before = records.drop_last();
        assert forall|i: int| 0 <= i < before.len() implies record_fault(
            #[trigger] before[i],
            columns,
            i + 2,
            purpose,
        ) is None by {
            assert(before[i] == records[i]);
        }
        lemma_faultless_records(before, columns, purpose);
        assert(records.last() == records[records.len() - 1]);
    }
}

/// Accepts the dimensions of rows of six values, and returns the number of rows.
pub fn validate_csv_tensor_shape(dims: &[usize]) -> (result: Result<usize, CoreError>)
    ensures
        result is Ok <==> dims@.len() == 2 && dims@[1] == 6,
        result matches Ok(n) ==> n == dims@[0],
        result matches Err(e) ==> e.says(
            "expected data with shape (N, 6), got "@ + dims_text(dims@),
        ),
{
    if dims.len() != 2 || dims[1] != 6 {
        let written = format_dims(dims);
        return Err(
            CoreError::Msg(concat2("expected data with shape (N, 6), got ", written.as_str())),
        );
    }
    Ok(dims[0])
}

/// The six values of a sample, in the order of the CSV columns.
pub open spec fn sample_row(s: PermittivitySample) -> Seq<Scalar> {
    seq![s.s11_real, s.s11_imag, s.s21_real, s.s21_imag, s.eps_prime, s.eps_double_prime]
}

/// The matrix of six columns that holds the values of samples.
pub fn samples_to_matrix(samples: &Vec<PermittivitySample>) -> (result: Tensor)
    requires
        samples@.len() * 6 <= usize::MAX,
    ensures
        result.wf(),
        result.dims@ == seq![samples@.len() as usize, 6usize],
        result.rows() == samples@.map_values(|s: PermittivitySample| sample_row(s)),
        result.dtype == DType::F64,
        result.device == Device::Cpu,
{
    let mut values: Vec<Scalar> = Vec::new();
    let mut i: usize = 0;
    while i < samples.len()
        invariant
            i <= samples@.len(),
            values@.len() == i * 6,
            super::tensor::rows_of(values@, 6, i as nat) == samples@.take(i as int).map_values(
                |s: PermittivitySample| sample_row(s),
            ),
        decreases samples@.len() - i,
    {
        let s = samples[i];
        let ghost before = values@;
        values.push(s.s11_real);
        values.push(s.s11_imag);
        values.push(s.s21_real);
        values.push(s.s21_imag);
        values.push(s.eps_prime);
        values.push(s.eps_double_prime);
        proof {
            assert(values@ == before + sample_row(s));
            super::tensor::lemma_push_row(before, 6, i as nat, sample_row(s));
            assert(samples@.take(i + 1).map_values(|s: PermittivitySample| sample_row(s))
                == samples@.take(i as int).map_values(
                |s: PermittivitySample| sample_row(s),
            ).push(sample_row(s)));
        }
        i += 1;
    }
    proof {
        assert(samples@.take(samples@.len() as int) == samples@);
    }
    super::tensor::matrix(samples.len(), 6, values, DType::F64, Device::Cpu)
}

/// Numbers of a generation run that are written with a fixed number of digits.
#[derive(Debug)]
pub struct GenerationTexts {
    pub width_mm: String,
    pub thickness_mm: String,
    pub frequency_ghz: String,
    pub eps_prime: (String, String),
    pub eps_double_prime: (String, String),
}

/// The lines that open a generation run.
pub open spec fn generation_header(texts: GenerationTexts) -> Seq<Seq<char>> {
    seq![
        "Generating non-magnetic material dataset..."@,
        "  Waveguide: a="@ + texts.width_mm@ + "mm, d="@ + texts.thickness_mm@ + "mm, f="@
            + texts.frequency_ghz@ + "GHz"@,
        "  Permittivity domain: eps' in ["@ + texts.eps_prime.0@ + ", "@ + texts.eps_prime.1@
            + "], eps'' in ["@ + texts.eps_double_prime.0@ + ", "@ + texts.eps_double_prime.1@
            + "]"@,
    ]
}

/// The lines that open a generation run.
pub fn data_generation_header(texts: &GenerationTexts) -> (result: Vec<String>)
    ensures
        views(result@) == generation_header(*texts),
{
    let mut lines: Vec<String> = Vec::new();
    lines.push(copy_of("Generating non-magnetic material dataset..."));
    let mut guide = concat3("  Waveguide: a=", texts.width_mm.as_str(), "mm, d=");
    guide.append(texts.thickness_mm.as_str());
    guide.append("mm, f=");
    guide.append(texts.frequency_ghz.as_str());
    guide.append("GHz");
    lines.push(guide);
    let mut domain = concat3(
        "  Permittivity domain: eps' in [",
        texts.eps_prime.0.as_str(),
        ", ",
    );
    domain.append(texts.eps_prime.1.as_str());
    domain.append("], eps'' in [");
    domain.append(texts.eps_double_prime.0.as_str());
    domain.append(", ");
    domain.append(texts.eps_double_prime.1.as_str());
    domain.append("]");
    lines.push(domain);
    proof {
        assert(views(lines@) =~= generation_header(*texts));
    }
    lines
}

/// The line on a split: its size, and its share in percent as text.
pub open spec fn split_line(name: Seq<char>, size: nat, percent: Seq<char>) -> Seq<char> {
    name + right_aligned(decimal_digits(size), 6) + " samples ("@ + percent + "%)"@
}

fn write_split(name: &str, size: usize, percent: &str) -> (result: String)
    ensures
        result@ == split_line(name@, size as nat, percent@),
{
    let digits = decimal(size as u64);
    let column = align_right(digits.as_str(), 6);
    let mut line = concat3(name, column.as_str(), " samples (");
    line.append(percent);
    line.append("%)");
    line
}

/// The lines on the sizes of the splits. `percents` are their shares as text.
pub fn dataset_stats(dataset: &GeneratedDataset, percents: &(String, String, String)) -> (result: Vec<
    String,
>)
    ensures
        views(result@) == seq![
            ""@,
            "Dataset statistics:"@,
            split_line("  Training:   "@, dataset.train@.len(), percents.0@),
            split_line("  Validation: "@, dataset.validation@.len(), percents.1@),
            split_line("  Test:       "@, dataset.test@.len(), percents.2@),
        ],
{
    let mut lines: Vec<String> = Vec::new();
    lines.push(copy_of(""));
    lines.push(copy_of("Dataset statistics:"));
    lines.push(write_split("  Training:   ", dataset.train.len(), percents.0.as_str()));
    lines.push(write_split("  Validation: ", dataset.validation.len(), percents.1.as_str()));
    lines.push(write_split("  Test:       ", dataset.test.len(), percents.2.as_str()));
    proof {
        assert(views(lines@) =~= seq![
            ""@,
            "Dataset statistics:"@,
            split_line("  Training:   "@, dataset.train@.len(), percents.0@),
            split_line("  Validation: "@, dataset.validation@.len(), percents.1@),
            split_line("  Test:       "@, dataset.test@.len(), percents.2@),
        ]);
    }
    lines
}

/// A configuration is valid exactly where nothing is said against its waveguide and its
/// frequency is positive, its ranges are in order with positive real parts and loss
/// factors that are not negative, its training grid has points, its share lies between
/// zero and one, and its offsets are not negative.
pub proof fn valid_configurations_have_no_fault(config: DataGenerationConfig)
    ensures
        config_fault(config, None) is None <==> {
            &&& is_positive(config.frequency)
            &&& is_positive(config.eps_prime_range.0)
            &&& is_positive(config.eps_prime_range.1)
            &&& config.eps_prime_range.0.le(config.eps_prime_range.1)
            &&& is_non_negative(config.eps_double_prime_range.0)
            &&& is_non_negative(config.eps_double_prime_range.1)
            &&& config.eps_double_prime_range.0.le(config.eps_double_prime_range.1)
            &&& config.n_eps_prime_train > 0
            &&& config.n_eps_double_prime_train > 0
            &&& (Scalar { bits: 0 }).lt(config.train_ratio)
            &&& config.train_ratio.lt(Scalar { bits: ONE_BITS })
            &&& is_non_negative(config.val_offset.0)
            &&& is_non_negative(config.val_offset.1)
            &&& is_non_negative(config.test_offset.0)
            &&& is_non_negative(config.test_offset.1)
        },
        forall|text: Seq<char>| (#[trigger] config_fault(config, Some(text))) is Some,
{
}

/// The standard dataset has a training grid of 200 by 100 points over real parts from 1 to
/// 200 and loss factors from 0 to 100, and a patch window from 1 to 2.5 and from 0 to 1.75
/// that is not sampled.
pub proof fn the_standard_dataset_covers_the_plane()
    ensures
        standard_config().n_eps_prime_train == 200,
        standard_config().n_eps_double_prime_train == 100,
        standard_config().seed == 42,
        standard_config().eps_prime_range.0.bits == 0x3ff0_0000_0000_0000,
        standard_config().eps_prime_range.1.bits == 0x4069_0000_0000_0000,
        standard_config().eps_double_prime_range.0.bits == 0,
        standard_config().eps_double_prime_range.1.bits == 0x4059_0000_0000_0000,
        standard_config().dense_patch_eps_prime_range.0.bits == 0x3ff0_0000_0000_0000,
        standard_config().dense_patch_eps_prime_range.1.bits == 0x4004_0000_0000_0000,
        standard_config().dense_patch_eps_double_prime_range.0.bits == 0,
        standard_config().dense_patch_eps_double_prime_range.1.bits == 0x3ffc_0000_0000_0000,
        standard_config().dense_patch_n_train == (0usize, 0usize),
        standard_config().dense_patch_n_eval == (0usize, 0usize),
{
}

/// Samples are put into the split of their grid, behind those of earlier grids, and keep
/// everything but the mark, which they get from the grid. The other splits stay as they
/// are.
pub proof fn samples_go_to_the_split_of_their_grid(
    plan: Seq<GridRequest>,
    samples: Seq<Vec<PermittivitySample>>,
    grid: GridRequest,
    more: Vec<PermittivitySample>,
    split: Split,
    i: int,
)
    requires
        plan.len() == samples.len(),
    ensures
        ({
            let before = split_samples(plan, samples, split);
            let after = split_samples(plan.push(grid), samples.push(more), split);
            &&& split_samples(Seq::empty(), Seq::empty(), split).len() == 0
            &&& split != grid.split ==> after == before
            &&& split == grid.split ==> {
                &&& after.len() == before.len() + more@.len()
                &&& after.take(before.len() as int) == before
                &&& 0 <= i < more@.len() ==> {
                    let s = after[before.len() + i];
                    &&& s.is_dense_patch == grid.dense_patch
                    &&& s.eps_prime == more@[i].eps_prime
                    &&& s.eps_double_prime == more@[i].eps_double_prime
                    &&& s.s11_real == more@[i].s11_real
                    &&& s.s11_imag == more@[i].s11_imag
                    &&& s.s21_real == more@[i].s21_real
                    &&& s.s21_imag == more@[i].s21_imag
                }
            }
        }),
{
    let before = split_samples(plan, samples, split);
    let after = split_samples(plan.push(grid), samples.push(more), split);
    assert(plan.push(grid).drop_last() =~= plan);
    assert(samples.push(more).drop_last() =~= samples);
    if split == grid.split {
        assert(after.take(before.len() as int) =~= before);
    }
}

/// A row of a sample has its measurement before its permittivity, each as the columns of a
/// file name it, and a record is read back by these names wherever the columns stand.
pub proof fn fields_are_read_from_the_columns_of_their_names(
    s: PermittivitySample,
    headers: Seq<Seq<char>>,
    columns: CsvColumns,
    fields: Seq<Reading>,
)
    requires
        resolves(columns, headers),
    ensures
        sample_row(s).len() == 6 && sample_headers().len() == 6,
        sample_row(s)[0] == s.s11_real && sample_headers()[0] == "S11_real"@,
        sample_row(s)[1] == s.s11_imag && sample_headers()[1] == "S11_imag"@,
        sample_row(s)[2] == s.s21_real && sample_headers()[2] == "S21_real"@,
        sample_row(s)[3] == s.s21_imag && sample_headers()[3] == "S21_imag"@,
        sample_row(s)[4] == s.eps_prime && sample_headers()[4] == "eps_prim"@,
        sample_row(s)[5] == s.eps_double_prime && sample_headers()[5] == "eps_secund"@,
        super::csv_table::names_column(headers[columns.s11_real as int], "s11_real"@),
        super::csv_table::names_column(headers[columns.s11_imag as int], "s11_imag"@),
        super::csv_table::names_column(headers[columns.s21_real as int], "s21_real"@),
        super::csv_table::names_column(headers[columns.s21_imag as int], "s21_imag"@),
        super::csv_table::names_column(headers[columns.eps_prim as int], "eps_prim"@),
        super::csv_table::names_column(headers[columns.eps_secund as int], "eps_secund"@),
        fields[columns.s11_real as int] is Ok ==> fields[columns.s11_real as int]->Ok_0
            == sample_of(fields, columns).s11_real,
        fields[columns.s11_imag as int] is Ok ==> fields[columns.s11_imag as int]->Ok_0
            == sample_of(fields, columns).s11_imag,
        fields[columns.s21_real as int] is Ok ==> fields[columns.s21_real as int]->Ok_0
            == sample_of(fields, columns).s21_real,
        fields[columns.s21_imag as int] is Ok ==> fields[columns.s21_imag as int]->Ok_0
            == sample_of(fields, columns).s21_imag,
        fields[columns.eps_prim as int] is Ok ==> fields[columns.eps_prim as int]->Ok_0
            == sample_of(fields, columns).eps_prime,
        fields[columns.eps_secund as int] is Ok ==> fields[columns.eps_secund as int]->Ok_0
            == sample_of(fields, columns).eps_double_prime,
        !sample_of(fields, columns).is_dense_patch,
{
    super::csv_table::column_is_found_where_named(headers, "s11_real"@);
    super::csv_table::column_is_found_where_named(headers, "s11_imag"@);
    super::csv_table::column_is_found_where_named(headers, "s21_real"@);
    super::csv_table::column_is_found_where_named(headers, "s21_imag"@);
    super::csv_table::column_is_found_where_named(headers, "eps_prim"@);
    super::csv_table::column_is_found_where_named(headers, "eps_secund"@);
}

/// Records make samples exactly where each of them was read and has a number in every
/// column, the first record being on row two of the file.
pub proof fn every_record_has_to_be_good(
    records: Seq<RecordReading>,
    columns: CsvColumns,
    purpose: TableUse,
)
    ensures
        records_fault(records, columns, purpose) is None <==> (forall|i: int|
            0 <= i < records.len() ==> record_fault(
                #[trigger] records[i],
                columns,
                i + 2,
                purpose,
            ) is None),
    decreases records.len(),
{
    if records.len() > 0 {
        let head = records.drop_last();
        let last = records.len() - 1;
        every_record_has_to_be_good(head, columns, purpose);
        assert(records[last] == records.last());
        if records_fault(records, columns, purpose) is None {
            assert forall|i: int| 0 <= i < records.len() implies record_fault(
                #[trigger] records[i],
                columns,
                i + 2,
                purpose,
            ) is None by {
                if i < last {
                    assert(head[i] == records[i]);
                }
            }
        }
        if forall|i: int|
            0 <= i < records.len() ==> record_fault(
                #[trigger] records[i],
                columns,
                i + 2,
                purpose,
            ) is None {
            assert forall|i: int| 0 <= i < head.len() implies record_fault(
                #[trigger] head[i],
                columns,
                i + 2,
                purpose,
            ) is None by {
                assert(head[i] == records[i]);
            }
        }
    }
}

/// A record has a number in every column exactly where all six fields are there and are
/// numbers.
pub proof fn good_records_have_six_numbers(
    fields: Seq<Reading>,
    columns: CsvColumns,
    row: int,
    purpose: TableUse,
)
    ensures
        fields_fault(fields, columns, row, purpose) is None <==> {
            &&& columns.s11_real < fields.len() && fields[columns.s11_real as int] is Ok
            &&& columns.s11_imag < fields.len() && fields[columns.s11_imag as int] is Ok
            &&& columns.s21_real < fields.len() && fields[columns.s21_real as int] is Ok
            &&& columns.s21_imag < fields.len() && fields[columns.s21_imag as int] is Ok
            &&& columns.eps_prim < fields.len() && fields[columns.eps_prim as int] is Ok
            &&& columns.eps_secund < fields.len() && fields[columns.eps_secund as int] is Ok
        },
{
}

/// A file has all columns exactly where each of the six names is found among its headers.
pub proof fn no_column_may_be_missing(headers: Seq<Seq<char>>)
    ensures
        missing_column(headers) is None <==> {
            &&& column_of(headers, "s11_real"@) is Some
            &&& column_of(headers, "s11_imag"@) is Some
            &&& column_of(headers, "s21_real"@) is Some
            &&& column_of(headers, "s21_imag"@) is Some
            &&& column_of(headers, "eps_prim"@) is Some
            &&& column_of(headers, "eps_secund"@) is Some
        },
        missing_column(headers) matches Some(name) ==> column_of(headers, name) is None,
{
}

/// A sample has the permittivity of its point, real part first, and the measurement that
/// belongs to it.
pub proof fn samples_have_the_permittivity_of_their_point(
    point: (Scalar, Scalar),
    s: S11S21,
    dense_patch: bool,
)
    ensures
        sample_at(point, s, dense_patch).eps_prime == point.0,
        sample_at(point, s, dense_patch).eps_double_prime == point.1,
        sample_at(point, s, dense_patch).s11_real == s.s11_real,
        sample_at(point, s, dense_patch).s11_imag == s.s11_imag,
        sample_at(point, s, dense_patch).s21_real == s.s21_real,
        sample_at(point, s, dense_patch).s21_imag == s.s21_imag,
        sample_at(point, s, dense_patch).is_dense_patch == dense_patch,
{
}

/// The first bad record is the one that is complained of, with its row in the file: the
/// names are on row one, so that the first record is on row two.
pub proof fn the_first_bad_record_is_told(
    records: Seq<RecordReading>,
    columns: CsvColumns,
    purpose: TableUse,
    i: int,
)
    requires
        0 <= i < records.len(),
        record_fault(records[i], columns, i + 2, purpose) is Some,
        forall|k: int|
            0 <= k < i ==> record_fault(#[trigger] records[k], columns, k + 2, purpose) is None,
    ensures
        records_fault(records, columns, purpose) == record_fault(
            records[i],
            columns,
            i + 2,
            purpose,
        ),
    decreases records.len(),
{
    let head = records.drop_last();
    if i < records.len() - 1 {
        assert(head[i] == records[i]);
        assert forall|k: int| 0 <= k < i implies record_fault(
            #[trigger] head[k],
            columns,
            k + 2,
            purpose,
        ) is None by {
            assert(head[k] == records[k]);
        }
        the_first_bad_record_is_told(head, columns, purpose, i);
    } else {
        every_record_has_to_be_good(head, columns, purpose);
        assert forall|k: int| 0 <= k < head.len() implies record_fault(
            #[trigger] head[k],
            columns,
            k + 2,
            purpose,
        ) is None by {
            assert(head[k] == records[k]);
        }
    }
}

} // verus!
