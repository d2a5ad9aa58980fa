//! The variants that are trained one at a time, by the recipe that did best.

use crate::base::error::CoreError;
use crate::paths::{checkpoint_file, weights_path};
use crate::scalar::Scalar;
use crate::text::{concat2, copy_of, same_text};
use crate::workflows::config::{ComplexNorm, ModelConfig, TrainConfig};
use crate::workflows::train_form::TrainSplits;
use vstd::prelude::*;

verus! {

/// The seed that stands for "none was chosen".
pub const STANDING_SEED: u64 = 42;

/// The pattern of 0.0004071689035540895, the dropout of the complex variants.
pub const COMPLEX_DROPOUT_BITS: u64 = 0x3f3a_af29_1fed_30d0;

/// The pattern of 0.007933403759394204, the input noise of the noisy variants.
pub const VARIANT_NOISE_BITS: u64 = 0x3f80_3f63_6d8a_5db7;

/// The pattern of 0.012305018392414956, the learning rate.
pub const RECIPE_LR_BITS: u64 = 0x3f89_335f_9c93_a98c;

/// The pattern of 9.940853574579717e-7, the weight decay.
pub const RECIPE_WEIGHT_DECAY_BITS: u64 = 0x3eb0_ad90_68d6_c148;

/// The pattern of 0.5, the norm that gradients are clipped at.
pub const RECIPE_CLIP_BITS: u64 = 0x3fe0_0000_0000_0000;

/// The pattern of 4.34544151503091e-6, the learning rate at the end.
pub const RECIPE_ETA_MIN_BITS: u64 = 0x3ed2_39e1_de4f_69f9;

/// A variant.
#[derive(Clone, Copy, Debug, PartialEq, Eq, Structural)]
pub struct Variant {
    pub complex: bool,
    pub noisy: bool,
    /// The seed where none was chosen: each variant has its own.
    pub seed: u64,
}

/// The variant of that name.
pub open spec fn variant_named(name: Seq<char>) -> Option<Variant> {
    if name == "rvnn_base"@ {
        Some(Variant { complex: false, noisy: false, seed: 42 })
    } else if name == "rvnn_pi"@ {
        Some(Variant { complex: false, noisy: false, seed: 43 })
    } else if name == "rvnn_noise"@ {
        Some(Variant { complex: false, noisy: true, seed: 44 })
    } else if name == "rvnn_both"@ {
        Some(Variant { complex: false, noisy: true, seed: 45 })
    } else if name == "cvnn_base"@ {
        Some(Variant { complex: true, noisy: false, seed: 46 })
    } else if name == "cvnn_pi"@ {
        Some(Variant { complex: true, noisy: false, seed: 47 })
    } else if name == "cvnn_noise"@ {
        Some(Variant { complex: true, noisy: true, seed: 48 })
    } else if name == "cvnn_both"@ {
        Some(Variant { complex: true, noisy: true, seed: 49 })
    } else {
        None
    }
}

/// The variant of that name.
pub fn find_variant(name: &str) -> (result: Result<Variant, CoreError>)
    ensures
        result is Ok <==> variant_named(name@) is Some,
        result matches Ok(variant) ==> variant_named(name@) == Some(variant),
        result matches Err(e) ==> e.says("Unknown model variant: "@ + name@),
{
    if same_text(name, "rvnn_base") {
        Ok(Variant { complex: false, noisy: false, seed: 42 })
    } else if same_text(name, "rvnn_pi") {
        Ok(Variant { complex: false, noisy: false, seed: 43 })
    } else if same_text(name, "rvnn_noise") {
        Ok(Variant { complex: false, noisy: true, seed: 44 })
    } else if same_text(name, "rvnn_both") {
        Ok(Variant { complex: false, noisy: true, seed: 45 })
    } else if same_text(name, "cvnn_base") {
        Ok(Variant { complex: true, noisy: false, seed: 46 })
    } else if same_text(name, "cvnn_pi") {
        Ok(Variant { complex: true, noisy: false, seed: 47 })
    } else if same_text(name, "cvnn_noise") {
        Ok(Variant { complex: true, noisy: true, seed: 48 })
    } else if same_text(name, "cvnn_both") {
        Ok(Variant { complex: true, noisy: true, seed: 49 })
    } else {
        Err(CoreError::Msg(concat2("Unknown model variant: ", name)))
    }
}

/// Variants of different names start from different seeds where none was chosen.
pub proof fn variants_have_their_own_seeds(first: Seq<char>, second: Seq<char>)
    requires
        variant_named(first) is Some,
        variant_named(second) is Some,
        first != second,
    ensures
        variant_named(first)->0.seed != variant_named(second)->0.seed,
{
}

/// What may be chosen on a command line.
#[derive(Debug)]
pub struct SingleArgs {
    pub seed: u64,
    pub epochs: usize,
    pub physics_lambda: Option<Scalar>,
    pub input_noise_std: Option<Scalar>,
    pub loss: Option<String>,
    pub verbose: bool,
}

/// The model of a variant.
pub open spec fn is_variant_model(model: ModelConfig, variant: Variant) -> bool {
    match model {
        ModelConfig::Real { hidden_size, activation, dropout, norm } => !variant.complex
            && hidden_size == 64 && activation@ == "relu"@ && dropout.bits == 0 && norm@
            == "layernorm"@,
        ModelConfig::Complex { hidden_size, complex_activation, dropout, norm } => variant.complex
            && hidden_size == 48 && complex_activation@ == "worelu"@ && dropout.bits
            == COMPLEX_DROPOUT_BITS && norm == ComplexNorm::LayerNorm,
    }
}

impl TrainConfig {
    /// The run of a variant by the recipe, as far as the command line leaves it.
    pub open spec fn is_variant_run(
        &self,
        variant: Variant,
        args: SingleArgs,
        splits: TrainSplits,
        checkpoint_path: String,
    ) -> bool {
        &&& self.train_samples == splits.train
        &&& self.val_samples == splits.val
        &&& self.test_samples == splits.test
        &&& self.checkpoint_path == Some(checkpoint_path)
        &&& is_variant_model(self.model, variant)
        &&& self.seed == if args.seed == STANDING_SEED {
            variant.seed
        } else {
            args.seed
        }
        &&& self.max_epochs == args.epochs
        &&& self.patience == args.epochs / 10
        &&& self.warmup_epochs == 0
        &&& self.batch_size@ == "16"@
        &&& self.lr.bits == RECIPE_LR_BITS
        &&& self.weight_decay.bits == RECIPE_WEIGHT_DECAY_BITS
        &&& self.optimizer@ == "adamw"@
        &&& self.scheduler@ == "cosine"@
        &&& args.loss matches Some(loss) ==> self.loss@ == loss@
        &&& args.loss is None ==> self.loss@ == "eps_rel_mse"@
        &&& self.checkpoint is None
        &&& self.shuffle_seed is None
        &&& self.log_progress == args.verbose
        &&& self.grad_clip_norm == Some(Scalar { bits: RECIPE_CLIP_BITS })
        &&& self.input_noise_std == match args.input_noise_std {
            Some(std) => Some(std),
            None => if variant.noisy {
                Some(Scalar { bits: VARIANT_NOISE_BITS })
            } else {
                None
            },
        }
        &&& self.cosine_eta_min == Some(Scalar { bits: RECIPE_ETA_MIN_BITS })
        &&& self.plateau_factor is None
        &&& self.plateau_patience is None
        &&& self.plateau_min_lr is None
        &&& self.sgd_momentum is None
        &&& self.sgd_nesterov is None
        &&& self.rmsprop_momentum is None
        &&& self.rmsprop_alpha is None
        &&& self.pi_mape_beta is None
        &&& self.physics_lambda == args.physics_lambda
    }
}

/// The run of a variant, with its weights written to `checkpoint_path`.
pub fn variant_run_at(name: &str, args: SingleArgs, splits: TrainSplits, checkpoint_path: String) -> (result:
    Result<TrainConfig, CoreError>)
    ensures
        result is Ok <==> variant_named(name@) is Some,
        result matches Ok(config) ==> config.is_variant_run(
            variant_named(name@)->0,
            args,
            splits,
            checkpoint_path,
        ),
        result matches Err(e) ==> e.says("Unknown model variant: "@ + name@),
{
    let variant = match find_variant(name) {
        Ok(variant) => variant,
        Err(e) => return Err(e),
    };
    let model = if variant.complex {
        ModelConfig::Complex {
            hidden_size: 48,
            complex_activation: copy_of("worelu"),
            dropout: Scalar::from_bits(COMPLEX_DROPOUT_BITS),
            norm: ComplexNorm::LayerNorm,
        }
    } else {
        ModelConfig::Real {
            hidden_size: 64,
            activation: copy_of("relu"),
            dropout: Scalar::zero(),
            norm: copy_of("layernorm"),
        }
    };
    let seed: u64 = if args.seed == STANDING_SEED {
        variant.seed
    } else {
        args.seed
    };
    let noise = match args.input_noise_std {
        Some(std) => Some(std),
        None => if variant.noisy {
            Some(Scalar::from_bits(VARIANT_NOISE_BITS))
        } else {
            None
        },
    };
    let loss = match args.loss {
        Some(loss) => loss,
        None => copy_of("eps_rel_mse"),
    };
    Ok(
        TrainConfig {
            train_samples: splits.train,
            val_samples: splits.val,
            test_samples: splits.test,
            checkpoint_path: Some(checkpoint_path),
            model,
            optimizer: copy_of("adamw"),
            lr: Scalar::from_bits(RECIPE_LR_BITS),
            weight_decay: Scalar::from_bits(RECIPE_WEIGHT_DECAY_BITS),
            batch_size: copy_of("16"),
            max_epochs: args.epochs,
            patience: args.epochs / 10,
            warmup_epochs: 0,
            scheduler: copy_of("cosine"),
            loss,
            checkpoint: None,
            seed,
            log_progress: args.verbose,
            shuffle_seed: None,
            grad_clip_norm: Some(Scalar::from_bits(RECIPE_CLIP_BITS)),
            input_noise_std: noise,
            cosine_eta_min: Some(Scalar::from_bits(RECIPE_ETA_MIN_BITS)),
            plateau_factor: None,
            plateau_patience: None,
            plateau_min_lr: None,
            sgd_momentum: None,
            sgd_nesterov: None,
            rmsprop_momentum: None,
            rmsprop_alpha: None,
            pi_mape_beta: None,
            physics_lambda: args.physics_lambda,
        },
    )
}

/// The run of a variant, with its weights written to the directory of its name under
/// `artifacts_dir`.
pub fn variant_run(name: &str, args: SingleArgs, splits: TrainSplits, artifacts_dir: &str)
    -> (result: Result<TrainConfig, CoreError>)
    ensures
        result is Ok <==> variant_named(name@) is Some,
        result matches Ok(config) ==> {
            &&& config.checkpoint_path is Some
            &&& config.checkpoint_path->0@ == weights_path(artifacts_dir@, name@)
            &&& config.is_variant_run(
                variant_named(name@)->0,
                args,
                splits,
                config.checkpoint_path->0,
            )
        },
        result matches Err(e) ==> e.says("Unknown model variant: "@ + name@),
{
    let path = checkpoint_file(artifacts_dir, name);
    variant_run_at(name, args, splits, path)
}

/// The variants: real and complex ones, each without noise under two names and with noise
/// under two, and each name with its own seed.
pub proof fn variants_are_families_with_and_without_noise()
    ensures
        variant_named("rvnn_base"@) == Some(Variant { complex: false, noisy: false, seed: 42 }),
        variant_named("rvnn_pi"@) == Some(Variant { complex: false, noisy: false, seed: 43 }),
        variant_named("rvnn_noise"@) == Some(Variant { complex: false, noisy: true, seed: 44 }),
        variant_named("rvnn_both"@) == Some(Variant { complex: false, noisy: true, seed: 45 }),
        variant_named("cvnn_base"@) == Some(Variant { complex: true, noisy: false, seed: 46 }),
        variant_named("cvnn_pi"@) == Some(Variant { complex: true, noisy: false, seed: 47 }),
        variant_named("cvnn_noise"@) == Some(Variant { complex: true, noisy: true, seed: 48 }),
        variant_named("cvnn_both"@) == Some(Variant { complex: true, noisy: true, seed: 49 }),
{
    reveal_strlit("rvnn_base");
    reveal_strlit("rvnn_pi");
    reveal_strlit("rvnn_noise");
    reveal_strlit("rvnn_both");
    reveal_strlit("cvnn_base");
    reveal_strlit("cvnn_pi");
    reveal_strlit("cvnn_noise");
    reveal_strlit("cvnn_both");
    assert("rvnn_base"@.len() == 9 && "rvnn_pi"@.len() == 7 && "rvnn_noise"@.len() == 10
        && "rvnn_both"@.len() == 9);
    assert("cvnn_base"@.len() == 9 && "cvnn_pi"@.len() == 7 && "cvnn_noise"@.len() == 10
        && "cvnn_both"@.len() == 9);
    assert("rvnn_base"@[0] == 'r' && "rvnn_pi"@[0] == 'r' && "rvnn_noise"@[0] == 'r'
        && "rvnn_both"@[0] == 'r');
    assert("cvnn_base"@[0] == 'c' && "cvnn_pi"@[0] == 'c' && "cvnn_noise"@[0] == 'c'
        && "cvnn_both"@[0] == 'c');
    assert("rvnn_base"@[6] == 'a' && "rvnn_both"@[6] == 'o');
    assert("cvnn_base"@[6] == 'a' && "cvnn_both"@[6] == 'o');
}

/// A variant trains its family by one recipe. Its own seed and its noise give way to what
/// the command line sets, and it stops after a tenth of its epochs without progress.
pub proof fn variants_train_by_one_recipe(
    config: TrainConfig,
    variant: Variant,
    args: SingleArgs,
    splits: TrainSplits,
    checkpoint_path: String,
)
    requires
        config.is_variant_run(variant, args, splits, checkpoint_path),
    ensures
        config.train_samples == splits.train,
        config.val_samples == splits.val,
        config.test_samples == splits.test,
        config.checkpoint_path == Some(checkpoint_path),
        variant.complex <==> config.model is Complex,
        !variant.complex ==> config.model.width() == 64,
        variant.complex ==> config.model.width() == 48,
        args.seed == 42 ==> config.seed == variant.seed,
        args.seed != 42 ==> config.seed == args.seed,
        config.max_epochs == args.epochs,
        config.patience == args.epochs / 10,
        config.warmup_epochs == 0,
        config.lr.bits == 0x3f89_335f_9c93_a98c,
        config.weight_decay.bits == 0x3eb0_ad90_68d6_c148,
        config.batch_size@ == "16"@,
        config.optimizer@ == "adamw"@,
        config.scheduler@ == "cosine"@,
        args.loss is Some ==> config.loss@ == args.loss->0@,
        args.loss is None ==> config.loss@ == "eps_rel_mse"@,
        args.input_noise_std is Some ==> config.input_noise_std == args.input_noise_std,
        args.input_noise_std is None && variant.noisy ==> config.input_noise_std == Some(
            Scalar { bits: 0x3f80_3f63_6d8a_5db7 },
        ),
        args.input_noise_std is None && !variant.noisy ==> config.input_noise_std is None,
        config.physics_lambda == args.physics_lambda,
        config.log_progress == args.verbose,
        config.grad_clip_norm == Some(Scalar { bits: 0x3fe0_0000_0000_0000 }),
        config.cosine_eta_min == Some(Scalar { bits: 0x3ed2_39e1_de4f_69f9 }),
        config.plateau_factor is None && config.plateau_patience is None,
        config.plateau_min_lr is None && config.pi_mape_beta is None,
        config.sgd_momentum is None && config.sgd_nesterov is None,
        config.rmsprop_momentum is None && config.rmsprop_alpha is None,
        config.shuffle_seed is None && config.checkpoint is None,
        !variant.complex ==> config.model->activation@ == "relu"@ && config.model->Real_norm@
            == "layernorm"@ && config.model.dropout_rate().bits == 0,
        variant.complex ==> config.model->complex_activation@ == "worelu"@
            && config.model->Complex_norm is LayerNorm && config.model.dropout_rate().bits
            == 0x3f3a_af29_1fed_30d0,
{
}

} // verus!
