//! Mini-batches of a supervised dataset, with optional seeded shuffling.
//!
//! A loader holds features and targets that are already scaled. One pass over it
//! visits every row exactly once, in the order of the dataset or in an order that
//! the seed and the epoch determine.

use super::tensor::{narrow_columns, narrow_rows, select_rows, Tensor};
use crate::base::error::{msg_error, CoreError};
use crate::base::rng::{mix_seed, mixed_seed, shuffle_by_seed, shuffled_by_seed};
use crate::base::validation::{dims_text, format_dims};
use crate::scalar::Scalar;
use crate::text::{concat2, concat3, decimal, decimal_digits};
use vstd::prelude::*;
use vstd::string::StringExecFns;

verus! {

/// How many rows a batch takes.
#[derive(Clone, Copy, Debug, PartialEq, Eq, Structural)]
pub enum BatchSize {
    /// At most this many.
    Fixed(usize),
    /// The whole dataset.
    All,
}

impl BatchSize {
    /// A batch takes at least one row.
    pub open spec fn valid(self) -> bool {
        self != BatchSize::Fixed(0)
    }

    /// The number of rows of a full batch of a dataset of `sample_count` rows.
    pub open spec fn resolved(self, sample_count: usize) -> usize {
        match self {
            BatchSize::Fixed(size) => size,
            BatchSize::All => sample_count,
        }
    }

    /// Refuses batches without rows.
    pub fn validate(self) -> (result: Result<(), CoreError>)
        ensures
            result is Ok <==> self.valid(),
            result matches Err(e) ==> e.says("DataLoader batch size must be greater than zero"@),
    {
        match self {
            BatchSize::Fixed(size) => if size == 0 {
                Err(msg_error("DataLoader batch size must be greater than zero"))
            } else {
                Ok(())
            },
            BatchSize::All => Ok(()),
        }
    }

    /// The number of rows of a full batch of a dataset of `sample_count` rows.
    pub fn resolve(self, sample_count: usize) -> (result: usize)
        ensures
            result == self.resolved(sample_count),
    {
        match self {
            BatchSize::Fixed(size) => size,
            BatchSize::All => sample_count,
        }
    }
}

/// How many batches of `size` rows it takes to hold `count` rows.
pub open spec fn batches_for(count: int, size: int) -> int {
    (count + size - 1) / size
}

/// How many batches are still to come of a pass over `count` rows.
pub open spec fn batches_left(count: int, visited: int, size: int) -> int {
    if visited >= count {
        0
    } else {
        batches_for(count - visited, size)
    }
}

/// The numbers from zero up to `count`.
pub open spec fn natural_order(count: nat) -> Seq<u32> {
    Seq::new(count, |i: int| i as u32)
}

/// The seed of one epoch's order.
pub open spec fn epoch_seed(seed: u64, epoch: u64) -> u64 {
    mixed_seed(seed, epoch)
}

/// The order in which an epoch visits the rows of a shuffled dataset.
pub open spec fn shuffled_order(count: nat, seed: u64, epoch: u64) -> Seq<u32> {
    shuffled_by_seed(epoch_seed(seed, epoch), natural_order(count))
}

/// Every row number below `count` occurs in `order` exactly once.
pub open spec fn visits_each_once(order: Seq<u32>, count: nat) -> bool {
    &&& order.len() == count
    &&& order.no_duplicates()
    &&& forall|i: int| 0 <= i < order.len() ==> #[trigger] order[i] < count
    &&& forall|r: u32| r < count ==> #[trigger] order.contains(r)
}

/// The row numbers of batch number `b`.
pub open spec fn batch_order(order: Seq<u32>, size: int, b: int) -> Seq<u32> {
    let end = (b + 1) * size;
    order.subrange(
        b * size,
        if end <= order.len() {
            end
        } else {
            order.len() as int
        },
    )
}

/// The rows of a matrix that `order` lists.
pub open spec fn picked(rows: Seq<Seq<Scalar>>, order: Seq<u32>) -> Seq<Seq<Scalar>> {
    Seq::new(order.len(), |i: int| rows[order[i] as int])
}

proof fn lemma_natural_order(count: nat)
    requires
        count <= u32::MAX,
    ensures
        visits_each_once(natural_order(count), count),
{
    let order = natural_order(count);
    assert(order.no_duplicates());
    assert forall|r: u32| r < count implies #[trigger] order.contains(r) by {
        assert(order[r as int] == r);
    }
}

proof fn lemma_permutation_visits(order: Seq<u32>, count: nat)
    requires
        count <= u32::MAX,
        order.to_multiset() == natural_order(count).to_multiset(),
    ensures
        visits_each_once(order, count),
{
    let natural = natural_order(count);
    lemma_natural_order(count);
    vstd::seq_lib::to_multiset_len(order);
    vstd::seq_lib::to_multiset_len(natural);
    natural.lemma_multiset_has_no_duplicates();
    assert(order.no_duplicates()) by {
        assert forall|x: u32| order.to_multiset().contains(x) implies order.to_multiset().count(x)
            == 1 by {
            assert(natural.to_multiset().contains(x));
        }
        order.lemma_multiset_has_no_duplicates_conv();
    }
    assert forall|i: int| 0 <= i < order.len() implies #[trigger] order[i] < count by {
        vstd::seq_lib::to_multiset_contains(order, order[i]);
        vstd::seq_lib::to_multiset_contains(natural, order[i]);
        assert(order.contains(order[i]));
        assert(natural.contains(order[i]));
    }
    assert forall|r: u32| r < count implies #[trigger] order.contains(r) by {
        vstd::seq_lib::to_multiset_contains(order, r);
        vstd::seq_lib::to_multiset_contains(natural, r);
        assert(natural.contains(r));
    }
}

/// The message for data that is not a matrix.
pub open spec fn not_a_matrix(context: Seq<char>, name: Seq<char>, dims: Seq<usize>) -> Seq<char> {
    if dims.len() != 2 {
        context + " expects "@ + name
            + " to be a 2D tensor shaped (samples, features), got "@ + dims_text(dims)
    } else {
        context + " expects "@ + name
            + " to have non-empty sample and feature dimensions, got "@ + dims_text(dims)
    }
}

fn validate_matrix(tensor: &Tensor, context: &str, name: &str) -> (result: Result<
    (usize, usize),
    CoreError,
>)
    requires
        tensor.wf(),
    ensures
        result is Ok <==> tensor.is_matrix(),
        result matches Ok(shape) ==> shape == (tensor.dims@[0], tensor.dims@[1]),
        result matches Err(e) ==> e.says(not_a_matrix(context@, name@, tensor.dims@)),
{
    let written = format_dims(tensor.dims.as_slice());
    let mut message = concat3(context, " expects ", name);
    if tensor.dims.len() != 2 {
        message.append(" to be a 2D tensor shaped (samples, features), got ");
        message.append(written.as_str());
        return Err(CoreError::Msg(message));
    }
    if tensor.dims[0] == 0 || tensor.dims[1] == 0 {
        message.append(" to have non-empty sample and feature dimensions, got ");
        message.append(written.as_str());
        return Err(CoreError::Msg(message));
    }
    Ok((tensor.dims[0], tensor.dims[1]))
}

/// Why features and targets do not make a dataset; `None` where they do.
pub open spec fn pair_fault(features: Tensor, targets: Tensor) -> Option<Seq<char>> {
    if !features.is_matrix() {
        Some(not_a_matrix("DataLoader::new"@, "features"@, features.dims@))
    } else if !targets.is_matrix() {
        Some(not_a_matrix("DataLoader::new"@, "targets"@, targets.dims@))
    } else if features.dims@[0] != targets.dims@[0] {
        Some(
            "DataLoader::new expected features and targets to have the same number of samples, got "@
                + decimal_digits(features.dims@[0] as nat) + " and "@ + decimal_digits(
                targets.dims@[0] as nat,
            ),
        )
    } else if features.dims@[0] > u32::MAX {
        Some(
            "DataLoader::new currently supports at most "@ + decimal_digits(u32::MAX as nat)
                + " samples for indexed batching, got "@ + decimal_digits(
                features.dims@[0] as nat,
            ),
        )
    } else if features.device != targets.device {
        Some("DataLoader::new expects features and targets to live on the same device"@)
    } else {
        None
    }
}

fn validate_dataset_pair(features: &Tensor, targets: &Tensor) -> (result: Result<(), CoreError>)
    requires
        features.wf(),
        targets.wf(),
    ensures
        result is Ok <==> pair_fault(*features, *targets) is None,
        result matches Err(e) ==> e.says(pair_fault(*features, *targets)->0),
{
    let (samples, _): (usize, usize) = match validate_matrix(features, "DataLoader::new", "features") {
        Ok(shape) => shape,
        Err(e) => {
            return Err(e);
        },
    };
    let (others, _): (usize, usize) = match validate_matrix(targets, "DataLoader::new", "targets") {
        Ok(shape) => shape,
        Err(e) => {
            return Err(e);
        },
    };
    if samples != others {
        let first = decimal(samples as u64);
        let second = decimal(others as u64);
        let mut message = concat2(
            "DataLoader::new expected features and targets to have the same number of samples, got ",
            first.as_str(),
        );
        message.append(" and ");
        message.append(second.as_str());
        return Err(CoreError::Msg(message));
    }
    if samples as u64 > u32::MAX as u64 {
        let most = decimal(u32::MAX as u64);
        let got = decimal(samples as u64);
        let mut message = concat2("DataLoader::new currently supports at most ", most.as_str());
        message.append(" samples for indexed batching, got ");
        message.append(got.as_str());
        return Err(CoreError::Msg(message));
    }
    if features.device != targets.device {
        return Err(
            msg_error("DataLoader::new expects features and targets to live on the same device"),
        );
    }
    Ok(())
}

/// A supervised dataset that hands out mini-batches.
#[derive(Debug)]
pub struct DataLoader {
    features: Tensor,
    targets: Tensor,
    batch_size: BatchSize,
    shuffle: bool,
    shuffle_seed: u64,
    epoch: u64,
}

/// One pass over a loader.
#[derive(Debug)]
pub struct DataLoaderIter {
    position: usize,
    batch_size: usize,
    sample_count: usize,
    shuffled_indices: Option<Vec<u32>>,
}

impl DataLoader {
    /// Features and targets fit together, and a batch takes at least one row.
    pub closed spec fn wf(&self) -> bool {
        &&& self.features.wf()
        &&& self.targets.wf()
        &&& pair_fault(self.features, self.targets) is None
        &&& self.batch_size.valid()
    }

    pub closed spec fn features_view(&self) -> Tensor {
        self.features
    }

    pub closed spec fn targets_view(&self) -> Tensor {
        self.targets
    }

    pub closed spec fn batch_size_view(&self) -> BatchSize {
        self.batch_size
    }

    pub closed spec fn shuffles(&self) -> bool {
        self.shuffle
    }

    pub closed spec fn seed(&self) -> u64 {
        self.shuffle_seed
    }

    /// The epoch that the next shuffled pass takes.
    pub closed spec fn next_epoch(&self) -> u64 {
        self.epoch
    }

    /// The number of rows of the dataset.
    pub open spec fn samples(&self) -> nat {
        self.features_view().dims@[0] as nat
    }

    /// The number of rows of a full batch.
    pub open spec fn full_batch(&self) -> int {
        self.batch_size_view().resolved(self.features_view().dims@[0]) as int
    }

    /// The number of batches of one pass.
    pub open spec fn batches_per_pass(&self) -> int {
        batches_for(self.samples() as int, self.full_batch())
    }

    /// The order in which the pass of an epoch visits the rows. A pass of a single
    /// batch keeps the order of the dataset.
    pub open spec fn order(&self, epoch: u64) -> Seq<u32> {
        if self.shuffles() && self.batches_per_pass() > 1 {
            shuffled_order(self.samples(), self.seed(), epoch)
        } else {
            natural_order(self.samples())
        }
    }

    /// All but the epoch counter is as in `other`.
    pub open spec fn same_data(&self, other: DataLoader) -> bool {
        &&& self.features_view() == other.features_view()
        &&& self.targets_view() == other.targets_view()
        &&& self.batch_size_view() == other.batch_size_view()
        &&& self.shuffles() == other.shuffles()
        &&& self.seed() == other.seed()
    }

    /// A loader over separate feature and target matrices, without shuffling.
    ///
    /// `global_seed` becomes its shuffle seed; a later change of the process seed
    /// does not reach it.
    pub fn new(
        features: Tensor,
        targets: Tensor,
        batch_size: BatchSize,
        global_seed: u64,
    ) -> (result: Result<DataLoader, CoreError>)
        requires
            features.wf(),
            targets.wf(),
        ensures
            result is Ok <==> pair_fault(features, targets) is None && batch_size.valid(),
            result matches Ok(loader) ==> {
                &&& loader.wf()
                &&& loader.features_view() == features
                &&& loader.targets_view() == targets
                &&& loader.batch_size_view() == batch_size
                &&& !loader.shuffles()
                &&& loader.seed() == global_seed
                &&& loader.next_epoch() == 0
            },
            result matches Err(e) ==> e.says(
                match pair_fault(features, targets) {
                    Some(text) => text,
                    None => "DataLoader batch size must be greater than zero"@,
                },
            ),
    {
        if let Err(e) = validate_dataset_pair(&features, &targets) {
            return Err(e);
        }
        if let Err(e) = batch_size.validate() {
            return Err(e);
        }
        Ok(
            DataLoader {
                features,
                targets,
                batch_size,
                shuffle: false,
                shuffle_seed: global_seed,
                epoch: 0,
            },
        )
    }

    /// A loader over one matrix whose first `feature_count` columns are features
    /// and whose other columns are targets.
    pub fn from_dataset_columns(
        data: Tensor,
        feature_count: usize,
        batch_size: BatchSize,
        global_seed: u64,
    ) -> (result: Result<DataLoader, CoreError>)
        requires
            data.wf(),
        ensures
            result is Ok <==> data.is_matrix() && 0 < feature_count < data.dims@[1]
                && data.dims@[0] <= u32::MAX && batch_size.valid(),
            result matches Ok(loader) ==> {
                &&& loader.wf()
                &&& loader.features_view().dims@ == seq![data.dims@[0], feature_count]
                &&& loader.targets_view().dims@ == seq![
                    data.dims@[0],
                    (data.dims@[1] - feature_count) as usize,
                ]
                &&& loader.features_view().rows() == data.rows().map_values(
                    |row: Seq<Scalar>| row.subrange(0, feature_count as int),
                )
                &&& loader.targets_view().rows() == data.rows().map_values(
                    |row: Seq<Scalar>| row.subrange(feature_count as int, data.dims@[1] as int),
                )
                &&& loader.features_view().dtype == data.dtype
                &&& loader.targets_view().dtype == data.dtype
                &&& loader.features_view().device == data.device
                &&& loader.targets_view().device == data.device
                &&& loader.batch_size_view() == batch_size
                &&& !loader.shuffles()
                &&& loader.seed() == global_seed
                &&& loader.next_epoch() == 0
            },
            result matches Err(e) ==> e.says(
                if !data.is_matrix() {
                    not_a_matrix("DataLoader::from_dataset_columns"@, "data"@, data.dims@)
                } else if !(0 < feature_count < data.dims@[1]) {
                    "DataLoader::from_dataset_columns expects feature_count in 1.."@
                        + decimal_digits(data.dims@[1] as nat) + ", got "@ + decimal_digits(
                        feature_count as nat,
                    )
                } else if data.dims@[0] > u32::MAX {
                    "DataLoader::new currently supports at most "@ + decimal_digits(
                        u32::MAX as nat,
                    ) + " samples for indexed batching, got "@ + decimal_digits(
                        data.dims@[0] as nat,
                    )
                } else {
                    "DataLoader batch size must be greater than zero"@
                },
            ),
    {
        let (_, total): (usize, usize) = match validate_matrix(
            &data,
            "DataLoader::from_dataset_columns",
            "data",
        ) {
            Ok(shape) => shape,
            Err(e) => {
                return Err(e);
            },
        };
        if feature_count == 0 || feature_count >= total {
            let columns = decimal(total as u64);
            let got = decimal(feature_count as u64);
            let mut message = concat2(
                "DataLoader::from_dataset_columns expects feature_count in 1..",
                columns.as_str(),
            );
            message.append(", got ");
            message.append(got.as_str());
            return Err(CoreError::Msg(message));
        }
        let features = narrow_columns(&data, 0, feature_count);
        let targets = narrow_columns(&data, feature_count, total - feature_count);
        DataLoader::new(features, targets, batch_size, global_seed)
    }

    /// Turns shuffling on or off.
    #[must_use]
    pub fn with_shuffle(self, shuffle: bool) -> (result: DataLoader)
        requires
            self.wf(),
        ensures
            result.wf(),
            result.features_view() == self.features_view(),
            result.targets_view() == self.targets_view(),
            result.batch_size_view() == self.batch_size_view(),
            result.shuffles() == shuffle,
            result.seed() == self.seed(),
            result.next_epoch() == self.next_epoch(),
    {
        let mut result = self;
        result.shuffle = shuffle;
        result
    }

    /// Sets the shuffle seed.
    #[must_use]
    pub fn with_seed(self, shuffle_seed: u64) -> (result: DataLoader)
        requires
            self.wf(),
        ensures
            result.wf(),
            result.features_view() == self.features_view(),
            result.targets_view() == self.targets_view(),
            result.batch_size_view() == self.batch_size_view(),
            result.shuffles() == self.shuffles(),
            result.seed() == shuffle_seed,
            result.next_epoch() == self.next_epoch(),
    {
        let mut result = self;
        result.shuffle_seed = shuffle_seed;
        result
    }

    /// Starts over with epoch zero.
    pub fn reset(&mut self)
        requires
            old(self).wf(),
        ensures
            final(self).wf(),
            final(self).same_data(*old(self)),
            final(self).next_epoch() == 0,
    {
        self.epoch = 0;
    }

    /// The number of rows of the dataset.
    #[must_use]
    pub fn sample_count(&self) -> (result: usize)
        requires
            self.wf(),
        ensures
            result == self.samples(),
            0 < result <= u32::MAX,
    {
        self.features.dims[0]
    }

    /// The number of feature columns.
    #[must_use]
    pub fn feature_count(&self) -> (result: usize)
        requires
            self.wf(),
        ensures
            result == self.features_view().dims@[1],
    {
        self.features.dims[1]
    }

    /// The number of target columns.
    #[must_use]
    pub fn target_count(&self) -> (result: usize)
        requires
            self.wf(),
        ensures
            result == self.targets_view().dims@[1],
    {
        self.targets.dims[1]
    }

    /// How many rows a batch takes.
    #[must_use]
    pub fn batch_size(&self) -> (result: BatchSize)
        ensures
            result == self.batch_size_view(),
    {
        self.batch_size
    }

    /// The number of batches of one pass.
    #[must_use]
    pub fn num_batches(&self) -> (result: usize)
        requires
            self.wf(),
        ensures
            result == self.batches_per_pass(),
            result > 0,
    {
        let count: usize = self.sample_count();
        let size: usize = self.batch_size.resolve(count);
        divide_up(count, size)
    }

    /// Begins the pass of the next epoch.
    ///
    /// With shuffling each pass takes an epoch of its own; without it every pass
    /// is that of epoch zero.
    #[must_use]
    pub fn iter(&mut self) -> (result: DataLoaderIter)
        requires
            old(self).wf(),
            old(self).shuffles() ==> old(self).next_epoch() < u64::MAX,
        ensures
            final(self).wf(),
            final(self).same_data(*old(self)),
            final(self).next_epoch() == if old(self).shuffles() {
                old(self).next_epoch() + 1
            } else {
                old(self).next_epoch() as int
            },
            result.begins(*final(self), if old(self).shuffles() {
                old(self).next_epoch()
            } else {
                0
            }),
    {
        if !self.shuffle {
            return self.iter_with_epoch(0);
        }
        let epoch: u64 = self.epoch;
        self.epoch = epoch + 1;
        self.iter_with_epoch(epoch)
    }

    /// Begins the pass of the given epoch.
    #[must_use]
    pub fn iter_with_epoch(&self, epoch: u64) -> (result: DataLoaderIter)
        requires
            self.wf(),
        ensures
            result.begins(*self, epoch),
    {
        let count: usize = self.sample_count();
        let shuffled: bool = self.shuffle && self.num_batches() > 1;
        let indices = if shuffled {
            Some(build_shuffled_indices(count, self.shuffle_seed, epoch))
        } else {
            None
        };
        proof {
            lemma_natural_order(count as nat);
            if indices is None {
                assert(self.order(epoch) == natural_order(count as nat));
            }
        }
        DataLoaderIter {
            position: 0,
            batch_size: self.batch_size.resolve(count),
            sample_count: count,
            shuffled_indices: indices,
        }
    }

    fn batch_from_range(
        &self,
        start: usize,
        end: usize,
        shuffled_indices: &Option<Vec<u32>>,
    ) -> (result: (Tensor, Tensor))
        requires
            self.wf(),
            start <= end <= self.samples(),
            shuffled_indices matches Some(indices) ==> visits_each_once(indices@, self.samples()),
        ensures
            ({
                let order = match shuffled_indices {
                    Some(indices) => indices@,
                    None => natural_order(self.samples()),
                };
                is_batch_of(*self, result, order.subrange(start as int, end as int))
            }),
    {
        let count: usize = end - start;
        match shuffled_indices {
            Some(indices) => {
                let mut chosen: Vec<u32> = Vec::new();
                let mut i: usize = start;
                while i < end
                    invariant
                        start <= i <= end <= indices@.len(),
                        chosen@ == indices@.subrange(start as int, i as int),
                    decreases end - i,
                {
                    chosen.push(indices[i]);
                    proof {
                        assert(indices@.subrange(start as int, i + 1) == indices@.subrange(
                            start as int,
                            i as int,
                        ).push(indices@[i as int]));
                    }
                    i += 1;
                }
                proof {
                    assert forall|k: int| 0 <= k < chosen@.len() implies #[trigger] chosen@[k]
                        < self.samples() by {
                        assert(chosen@[k] == indices@[start + k]);
                    }
                }
                let features = select_rows(&self.features, chosen.as_slice());
                let targets = select_rows(&self.targets, chosen.as_slice());
                (features, targets)
            },
            None => {
                let features = narrow_rows(&self.features, start, count);
                let targets = narrow_rows(&self.targets, start, count);
                proof {
                    let part = natural_order(self.samples()).subrange(start as int, end as int);
                    assert(features.rows() == picked(self.features.rows(), part));
                    assert(targets.rows() == picked(self.targets.rows(), part));
                }
                (features, targets)
            },
        }
    }
}

/// `batch` holds the features and the targets of the rows that `order` lists.
pub open spec fn is_batch_of(loader: DataLoader, batch: (Tensor, Tensor), order: Seq<u32>) -> bool {
    let features = loader.features_view();
    let targets = loader.targets_view();
    &&& batch.0.wf()
    &&& batch.1.wf()
    &&& batch.0.dims@ == seq![order.len() as usize, features.dims@[1]]
    &&& batch.1.dims@ == seq![order.len() as usize, targets.dims@[1]]
    &&& batch.0.rows() == picked(features.rows(), order)
    &&& batch.1.rows() == picked(targets.rows(), order)
    &&& batch.0.dtype == features.dtype
    &&& batch.1.dtype == targets.dtype
    &&& batch.0.device == features.device
    &&& batch.1.device == targets.device
}

/// `count / size`, rounded up.
pub fn divide_up(count: usize, size: usize) -> (result: usize)
    requires
        size > 0,
    ensures
        result == batches_for(count as int, size as int),
        count > 0 ==> result > 0,
{
    let whole: usize = count / size;
    proof {
        let c = count as int;
        let s = size as int;
        let q = c / s;
        let r = c % s;
        vstd::arithmetic::div_mod::lemma_fundamental_div_mod(c, s);
        vstd::arithmetic::div_mod::lemma_mod_bound(c, s);
        if r == 0 {
            assert(c + s - 1 == s * q + (s - 1));
            vstd::arithmetic::div_mod::lemma_fundamental_div_mod_converse(c + s - 1, s, q, s - 1);
        } else {
            assert(s * (q + 1) == s * q + s) by (nonlinear_arith);
            assert(c + s - 1 == s * (q + 1) + (r - 1));
            vstd::arithmetic::div_mod::lemma_fundamental_div_mod_converse(
                c + s - 1,
                s,
                q + 1,
                r - 1,
            );
        }
        assert(q <= c) by (nonlinear_arith)
            requires
                c == s * q + r,
                s >= 1,
                r >= 0,
                c >= 0,
        ;
        assert(r != 0 ==> q + 1 <= c) by (nonlinear_arith)
            requires
                c == s * q + r,
                s > r,
                r >= 0,
                c >= 0,
                s >= 1,
        ;
        assert(c > 0 && r == 0 ==> q > 0) by (nonlinear_arith)
            requires
                c == s * q + r,
                s >= 1,
        ;
        assert(q >= 0) by (nonlinear_arith)
            requires
                c == s * q + r,
                s > r,
                c >= 0,
                s >= 1,
        ;
    }
    if count % size == 0 {
        whole
    } else {
        whole + 1
    }
}

fn build_shuffled_indices(sample_count: usize, seed: u64, epoch: u64) -> (result: Vec<u32>)
    requires
        sample_count <= u32::MAX,
    ensures
        result@ == shuffled_order(sample_count as nat, seed, epoch),
        visits_each_once(result@, sample_count as nat),
{
    let mut indices: Vec<u32> = Vec::new();
    let mut i: usize = 0;
    while i < sample_count
        invariant
            i <= sample_count <= u32::MAX,
            indices@ == natural_order(i as nat),
        decreases sample_count - i,
    {
        indices.push(i as u32);
        proof {
            assert(natural_order((i + 1) as nat) == natural_order(i as nat).push(i as u32));
        }
        i += 1;
    }
    let result = shuffle_by_seed(mix_seed(seed, epoch), indices);
    proof {
        lemma_permutation_visits(result@, sample_count as nat);
    }
    result
}

impl DataLoaderIter {
    /// The order in which this pass visits the rows.
    pub closed spec fn order(&self) -> Seq<u32> {
        match self.shuffled_indices {
            Some(indices) => indices@,
            None => natural_order(self.sample_count as nat),
        }
    }

    /// The number of rows that have been visited.
    pub closed spec fn visited(&self) -> int {
        self.position as int
    }

    /// The number of rows of a full batch.
    pub closed spec fn full_batch(&self) -> int {
        self.batch_size as int
    }

    /// This is a pass over `loader`.
    pub closed spec fn passes_over(&self, loader: DataLoader) -> bool {
        &&& loader.wf()
        &&& self.sample_count == loader.samples()
        &&& self.batch_size == loader.full_batch()
        &&& self.position <= self.sample_count
        &&& visits_each_once(self.order(), loader.samples())
    }

    /// This is the pass of an epoch, and no row has been visited.
    pub open spec fn begins(&self, loader: DataLoader, epoch: u64) -> bool {
        &&& self.passes_over(loader)
        &&& visits_each_once(self.order(), loader.samples())
        &&& self.visited() == 0
        &&& self.order() == loader.order(epoch)
        &&& self.full_batch() == loader.full_batch()
    }

    /// How many batches are still to come.
    pub fn remaining_batches(&self) -> (result: usize)
        requires
            exists|loader: DataLoader| #[trigger] self.passes_over(loader),
        ensures
            result == batches_left(
                self.order().len() as int,
                self.visited(),
                self.full_batch(),
            ),
    {
        if self.position >= self.sample_count {
            0
        } else {
            divide_up(self.sample_count - self.position, self.batch_size)
        }
    }

    /// The next batch; `None` once every row has been visited.
    pub fn next(&mut self, loader: &DataLoader) -> (result: Option<(Tensor, Tensor)>)
        requires
            old(self).passes_over(*loader),
        ensures
            final(self).passes_over(*loader),
            final(self).order() == old(self).order(),
            final(self).full_batch() == old(self).full_batch(),
            result is None <==> old(self).visited() == old(self).order().len(),
            result is None ==> final(self).visited() == old(self).visited(),
            result matches Some(batch) ==> {
                let start = old(self).visited();
                let end = if start + old(self).full_batch() <= old(self).order().len() {
                    start + old(self).full_batch()
                } else {
                    old(self).order().len() as int
                };
                &&& final(self).visited() == end
                &&& start < end
                &&& is_batch_of(*loader, batch, old(self).order().subrange(start, end))
            },
    {
        if self.position >= self.sample_count {
            return None;
        }
        let start: usize = self.position;
        let end: usize = if self.batch_size <= self.sample_count - start {
            start + self.batch_size
        } else {
            self.sample_count
        };
        self.position = end;
        Some(loader.batch_from_range(start, end, &self.shuffled_indices))
    }
}

/// Something that hands out the batches of a supervised dataset, a pass at a time.
pub trait BatchSource {
    /// A further pass can begin.
    spec fn ready(&self) -> bool;

    /// The batches of the next pass.
    fn batches(&mut self) -> Vec<(Tensor, Tensor)>
        requires
            old(self).ready(),
    ;

    /// The number of rows of the dataset.
    fn sample_count(&self) -> usize
        requires
            self.ready(),
    ;

    /// The number of batches of one pass.
    fn num_batches(&self) -> usize
        requires
            self.ready(),
    ;
}

impl BatchSource for DataLoader {
    open spec fn ready(&self) -> bool {
        self.wf() && (self.shuffles() ==> self.next_epoch() < u64::MAX)
    }

    fn batches(&mut self) -> (result: Vec<(Tensor, Tensor)>)
        ensures
            final(self).wf(),
            final(self).same_data(*old(self)),
            final(self).next_epoch() == if old(self).shuffles() {
                old(self).next_epoch() + 1
            } else {
                old(self).next_epoch() as int
            },
            result@.len() == old(self).batches_per_pass(),
            ({
                let epoch = if old(self).shuffles() {
                    old(self).next_epoch()
                } else {
                    0
                };
                &&& visits_each_once(old(self).order(epoch), old(self).samples())
                &&& forall|b: int|
                    0 <= b < result@.len() ==> is_batch_of(
                        *old(self),
                        #[trigger] result@[b],
                        batch_order(old(self).order(epoch), old(self).full_batch(), b),
                    )
            }),
    {
        let mut pass = self.iter();
        let ghost order = pass.order();
        let ghost size = pass.full_batch();
        let ghost count = order.len() as int;
        let ghost begun = *self;
        let mut result: Vec<(Tensor, Tensor)> = Vec::new();
        proof {
            lemma_full_batch_is_positive(*self);
        }
        loop
            invariant
                self.wf(),
                self.same_data(*old(self)),
                *self == begun,
                pass.passes_over(*self),
                pass.order() == order,
                pass.full_batch() == size,
                size == self.full_batch(),
                size > 0,
                count == order.len(),
                visits_each_once(order, self.samples()),
                pass.visited() == if result@.len() * size <= count {
                    result@.len() * size
                } else {
                    count
                },
                result@.len() > 0 ==> (result@.len() - 1) * size < count,
                forall|b: int|
                    0 <= b < result@.len() ==> is_batch_of(
                        *self,
                        #[trigger] result@[b],
                        batch_order(order, size, b),
                    ),
            ensures
                pass.visited() == count,
            decreases count - pass.visited(),
        {
            let ghost start = pass.visited();
            let ghost made = result@.len() as int;
            match pass.next(self) {
                Some(batch) => {
                    proof {
                        assert((made + 1) * size == made * size + size) by (nonlinear_arith);
                        assert(order.subrange(start, pass.visited()) == batch_order(
                            order,
                            size,
                            made,
                        ));
                    }
                    result.push(batch);
                },
                None => {
                    break;
                },
            }
        }
        proof {
            lemma_batch_count(count, size, result@.len() as int);
        }
        result
    }

    fn sample_count(&self) -> (result: usize)
        ensures
            result == self.samples(),
    {
        DataLoader::sample_count(self)
    }

    fn num_batches(&self) -> (result: usize)
        ensures
            result == self.batches_per_pass(),
    {
        DataLoader::num_batches(self)
    }
}

proof fn lemma_full_batch_is_positive(loader: DataLoader)
    requires
        loader.wf(),
    ensures
        loader.full_batch() > 0,
        0 < loader.samples() <= u32::MAX,
{
}

proof fn lemma_batch_count(count: int, size: int, made: int)
    requires
        size > 0,
        count > 0,
        made > 0,
        (made - 1) * size < count <= made * size,
    ensures
        made == batches_for(count, size),
{
    let r = count - 1 - (made - 1) * size;
    assert(count + size - 1 == size * made + r) by (nonlinear_arith)
        requires
            r == count - 1 - (made - 1) * size,
    ;
    assert(r < size) by (nonlinear_arith)
        requires
            r == count - 1 - (made - 1) * size,
            count <= made * size,
    ;
    vstd::arithmetic::div_mod::lemma_fundamental_div_mod_converse(count + size - 1, size, made, r);
}

/// The batches of a pass, one after the other, are its whole order: no row is
/// left out and none comes twice.
pub proof fn batches_make_up_the_pass(order: Seq<u32>, size: int)
    requires
        size > 0,
        order.len() > 0,
    ensures
        Seq::new(
            batches_for(order.len() as int, size) as nat,
            |b: int| batch_order(order, size, b),
        ).flatten() == order,
{
    let total = batches_for(order.len() as int, size);
    lemma_batches_for(order.len() as int, size);
    lemma_batch_prefix(order, size, total as nat);
    assert(order.take(order.len() as int) == order);
}

proof fn lemma_batches_for(count: int, size: int)
    requires
        size > 0,
        count > 0,
    ensures
        batches_for(count, size) > 0,
        (batches_for(count, size) - 1) * size < count <= batches_for(count, size) * size,
{
    let n = count + size - 1;
    let q = n / size;
    vstd::arithmetic::div_mod::lemma_fundamental_div_mod(n, size);
    vstd::arithmetic::div_mod::lemma_mod_bound(n, size);
    let r = n % size;
    assert(q > 0 && (q - 1) * size < count <= q * size) by (nonlinear_arith)
        requires
            n == size * q + r,
            0 <= r < size,
            n == count + size - 1,
            count > 0,
            size > 0,
    ;
}

proof fn lemma_batch_prefix(order: Seq<u32>, size: int, made: nat)
    requires
        size > 0,
        made > 0 ==> (made - 1) * size < order.len(),
    ensures
        Seq::new(made, |b: int| batch_order(order, size, b)).flatten() == order.take(
            if made * size <= order.len() {
                made * size
            } else {
                order.len() as int
            },
        ),
    decreases made,
{
    let pieces = Seq::new(made, |b: int| batch_order(order, size, b));
    if made == 0 {
        assert(pieces == Seq::<Seq<u32>>::empty());
    } else {
        let fewer = (made - 1) as nat;
        assert((fewer - 1) * size < order.len()) by (nonlinear_arith)
            requires
                (made - 1) * size < order.len(),
                fewer == made - 1,
                size > 0,
        ;
        assert(made * size == fewer * size + size) by (nonlinear_arith)
            requires
                fewer == made - 1,
        ;
        assert(0 <= fewer * size) by (nonlinear_arith)
            requires
                fewer >= 0,
                size > 0,
        ;
        lemma_batch_prefix(order, size, fewer);
        let shorter = Seq::new(fewer, |b: int| batch_order(order, size, b));
        assert(pieces == shorter.push(batch_order(order, size, fewer as int)));
        shorter.lemma_flatten_push(batch_order(order, size, fewer as int));
    }
}

/// Handing out a batch lowers the number of batches still to come by one.
pub proof fn each_batch_counts_down(count: int, visited: int, size: int)
    requires
        size > 0,
        0 <= visited < count,
    ensures
        ({
            let after = if visited + size <= count {
                visited + size
            } else {
                count
            };
            batches_left(count, after, size) == batches_left(count, visited, size) - 1
        }),
{
    let left = count - visited;
    if left > size {
        vstd::arithmetic::div_mod::lemma_div_plus_one(left - size + size - 1, size);
        assert(batches_for(left, size) == batches_for(left - size, size) + 1);
    } else {
        lemma_batch_count(left, size, 1);
        assert(batches_for(left, size) == 1);
    }
}

/// Loaders over the same data, with the same batch size and seed, visit the rows
/// of an epoch in the same order.
pub proof fn equal_loaders_visit_alike(first: DataLoader, second: DataLoader, epoch: u64)
    requires
        first.same_data(second),
    ensures
        first.order(epoch) == second.order(epoch),
{
}

/// In a batch, the features and the targets of a position come from the same row
/// of the dataset.
pub proof fn pairs_stay_together(
    loader: DataLoader,
    batch: (Tensor, Tensor),
    order: Seq<u32>,
    i: int,
)
    requires
        is_batch_of(loader, batch, order),
        0 <= i < order.len(),
    ensures
        batch.0.rows()[i] == loader.features_view().rows()[order[i] as int],
        batch.1.rows()[i] == loader.targets_view().rows()[order[i] as int],
{
}

/// Different epochs draw their orders from different seeds.
pub proof fn epochs_have_different_seeds(seed: u64, first: u64, second: u64)
    requires
        first != second,
    ensures
        epoch_seed(seed, first) != epoch_seed(seed, second),
{
    crate::base::rng::streams_have_different_seeds(seed, first, second);
}

/// A pass takes as few batches as it can: all but the last are full, and the last has at
/// least one row and no more than a full batch.
pub proof fn all_batches_but_the_last_are_full(order: Seq<u32>, size: int, b: int)
    requires
        size > 0,
        order.len() > 0,
        0 <= b < batches_for(order.len() as int, size),
    ensures
        b + 1 < batches_for(order.len() as int, size) ==> batch_order(order, size, b).len()
            == size,
        b + 1 == batches_for(order.len() as int, size) ==> 0 < batch_order(order, size, b).len()
            <= size,
        forall|i: int|
            0 <= i < batch_order(order, size, b).len() ==> #[trigger] batch_order(
                order,
                size,
                b,
            )[i] == order[b * size + i],
{
    let n = order.len() as int;
    let count = batches_for(n, size);
    vstd::arithmetic::div_mod::lemma_fundamental_div_mod(n + size - 1, size);
    assert(size * count <= n + size - 1 && n + size - 1 < size * count + size);
    assert((b + 1) * size == b * size + size) by (nonlinear_arith);
    if b + 1 < count {
        assert((b + 1) * size <= (count - 1) * size) by (nonlinear_arith)
            requires
                b + 1 <= count - 1,
                size > 0,
        ;
        assert((count - 1) * size == size * count - size) by (nonlinear_arith);
        assert(0 <= b * size) by (nonlinear_arith)
            requires
                b >= 0,
                size > 0,
        ;
    } else {
        assert(b * size == size * count - size) by (nonlinear_arith)
            requires
                b == count - 1,
        ;
        assert(0 <= b * size) by (nonlinear_arith)
            requires
                b >= 0,
                size > 0,
        ;
    }
}

/// Rows are visited as they stand where nothing is shuffled, or where one batch holds
/// them all; else their order comes from the seed and the epoch.
pub proof fn one_batch_needs_no_shuffling(loader: DataLoader, epoch: u64, i: int)
    requires
        loader.wf(),
        0 <= i < loader.samples(),
    ensures
        !loader.shuffles() ==> loader.order(epoch)[i] == i,
        loader.batches_per_pass() <= 1 ==> loader.order(epoch)[i] == i,
        loader.shuffles() && loader.batches_per_pass() > 1 ==> loader.order(epoch)
            == shuffled_by_seed(epoch_seed(loader.seed(), epoch), natural_order(loader.samples())),
        natural_order(loader.samples()).len() == loader.samples(),
        natural_order(loader.samples())[i] == i,
{
}

/// Loaders with different seeds shuffle by different seeds in every epoch.
pub proof fn seeds_shuffle_apart(first: u64, second: u64, epoch: u64)
    requires
        first != second,
    ensures
        epoch_seed(first, epoch) != epoch_seed(second, epoch),
{
    crate::base::rng::seeds_stay_apart(first, second, epoch);
}

/// A batch of all rows has as many as there are, any other has the size that it names;
/// only a size of zero is refused.
pub proof fn batch_sizes_resolve_as_named(size: usize, sample_count: usize)
    ensures
        BatchSize::All.resolved(sample_count) == sample_count,
        BatchSize::Fixed(size).resolved(sample_count) == size,
        BatchSize::All.valid(),
        BatchSize::Fixed(size).valid() <==> size > 0,
{
}

/// Features and targets make a dataset exactly where both are matrices with rows and
/// columns, have equally many rows that can be counted in 32 bits, and are in one place.
pub proof fn datasets_are_paired_matrices(features: Tensor, targets: Tensor)
    ensures
        pair_fault(features, targets) is None <==> {
            &&& features.is_matrix()
            &&& targets.is_matrix()
            &&& features.dims@[0] == targets.dims@[0]
            &&& features.dims@[0] <= u32::MAX
            &&& features.device == targets.device
        },
{
}

/// A batch has the rows that its order lists, each row of features beside the row of
/// targets of the same sample, in the element type and the place of the dataset.
pub proof fn batches_hold_the_listed_rows(
    loader: DataLoader,
    batch: (Tensor, Tensor),
    order: Seq<u32>,
    i: int,
)
    requires
        is_batch_of(loader, batch, order),
        0 <= i < order.len() <= usize::MAX,
    ensures
        batch.0.rows().len() == order.len(),
        batch.1.rows().len() == order.len(),
        batch.0.dims@.len() == 2 && batch.0.dims@[1] == loader.features_view().dims@[1],
        batch.1.dims@.len() == 2 && batch.1.dims@[1] == loader.targets_view().dims@[1],
        batch.0.rows()[i] == loader.features_view().rows()[order[i] as int],
        batch.1.rows()[i] == loader.targets_view().rows()[order[i] as int],
        batch.0.dtype == loader.features_view().dtype,
        batch.1.dtype == loader.targets_view().dtype,
        batch.0.device == loader.features_view().device,
        batch.1.device == loader.targets_view().device,
{
}

/// There are as many batches as it takes to hold all rows, and none more.
pub proof fn batches_are_just_enough(rows: int, size: int)
    requires
        rows > 0,
        size > 0,
    ensures
        batches_for(rows, size) >= 1,
        (batches_for(rows, size) - 1) * size < rows,
        rows <= batches_for(rows, size) * size,
{
    let count = batches_for(rows, size);
    vstd::arithmetic::div_mod::lemma_fundamental_div_mod(rows + size - 1, size);
    assert(count * size == size * count) by (nonlinear_arith);
    assert((count - 1) * size == size * count - size) by (nonlinear_arith);
    if count <= 0 {
        assert(size * count <= 0) by (nonlinear_arith)
            requires
                count <= 0,
                size > 0,
        ;
    }
}

/// A full batch has the rows that were set, or all rows of the dataset, which then make up
/// one batch.
pub proof fn full_batches_have_the_rows_that_were_set(loader: DataLoader)
    requires
        loader.features_view().dims@.len() == 2,
        loader.features_view().dims@[0] > 0,
    ensures
        loader.samples() == loader.features_view().dims@[0],
        loader.batch_size_view() matches BatchSize::Fixed(size) ==> loader.full_batch() == size,
        loader.batch_size_view() is All ==> loader.full_batch() == loader.samples(),
        loader.batch_size_view() is All ==> loader.batches_per_pass() == 1,
{
    let n = loader.samples() as int;
    if loader.batch_size_view() is All {
        batches_are_just_enough(n, n);
        let count = loader.batches_per_pass();
        assert((count - 1) * n < n && count >= 1);
        if count >= 2 {
            assert((count - 1) * n >= n) by (nonlinear_arith)
                requires
                    count >= 2,
                    n > 0,
            ;
        }
    }
}

} // verus!
