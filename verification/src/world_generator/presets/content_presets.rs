//! Ready-made content options.

use vstd::prelude::*;
use crate::utils::traits::{Loadable, Validator};
use crate::world::tile::Content;
use crate::world_generator::content_options::{lemma_all_valid, OxAgContentOptions};

verus! {

/// The content presets.
///
/// `Empty` lists every kind of content with the options of an absent
/// content, so that nothing spawns.
///
/// `Default` lists these kinds, in this order; the share is given here in
/// whole numbers and held in millionths:
///
/// | kind | in batches | present | least number | radius | number fixed | fixed number | share |
/// |------|------------|---------|--------------|--------|--------------|--------------|-------|
/// | `Rock` | false | true | 20 | 0 | false | 0 | 0.08 |
/// | `Tree` | true | true | 3 | 10 | false | 100 | 0.3 |
/// | `Garbage` | true | true | 2 | 2 | false | 0 | 0.03 |
/// | `Fire` | true | true | 2 | 2 | true | 6 | 0.04 |
/// | `Coin` | false | true | 2 | 3 | false | 0 | 0.07 |
/// | `Bin` | false | true | 1 | 3 | false | 0 | 0.01 |
/// | `Crate` | false | true | 1 | 1 | false | 0 | 0.01 |
/// | `Bank` | false | true | 1 | 3 | false | 0 | 0.01 |
/// | `Water` | false | true | 4 | 1 | false | 0 | 1 |
/// | `Fish` | false | true | 0 | 1 | false | 0 | 0.2 |
#[derive(Clone, Copy, Debug, PartialEq, Eq, Structural)]
pub enum OxAgContentPresets {
    Empty,
    Default,
}

impl OxAgContentPresets {
    /// The list that the preset `Default` stands for.
    pub open spec fn default_list() -> Seq<(Content, OxAgContentOptions)> {
        seq![
            (
                Content::Rock(0),
                OxAgContentOptions {
                    in_batches: false,
                    is_present: true,
                    min_spawn_number: 20,
                    max_radius: 0,
                    with_max_spawn_number: false,
                    max_spawn_number: 0,
                    percentage: 80_000,
                },
            ),
            (
                Content::Tree(0),
                OxAgContentOptions {
                    in_batches: true,
                    is_present: true,
                    min_spawn_number: 3,
                    max_radius: 10,
                    with_max_spawn_number: false,
                    max_spawn_number: 100,
                    percentage: 300_000,
                },
            ),
            (
                Content::Garbage(0),
                OxAgContentOptions {
                    in_batches: true,
                    is_present: true,
                    min_spawn_number: 2,
                    max_radius: 2,
                    with_max_spawn_number: false,
                    max_spawn_number: 0,
                    percentage: 30_000,
                },
            ),
            (
                Content::Fire,
                OxAgContentOptions {
                    in_batches: true,
                    is_present: true,
                    min_spawn_number: 2,
                    max_radius: 2,
                    with_max_spawn_number: true,
                    max_spawn_number: 6,
                    percentage: 40_000,
                },
            ),
            (
                Content::Coin(0),
                OxAgContentOptions {
                    in_batches: false,
                    is_present: true,
                    min_spawn_number: 2,
                    max_radius: 3,
                    with_max_spawn_number: false,
                    max_spawn_number: 0,
                    percentage: 70_000,
                },
            ),
            (
                Content::Bin(0, 0),
                OxAgContentOptions {
                    in_batches: false,
                    is_present: true,
                    min_spawn_number: 1,
                    max_radius: 3,
                    with_max_spawn_number: false,
                    max_spawn_number: 0,
                    percentage: 10_000,
                },
            ),
            (
                Content::Crate(0, 0),
                OxAgContentOptions {
                    in_batches: false,
                    is_present: true,
                    min_spawn_number: 1,
                    max_radius: 1,
                    with_max_spawn_number: false,
                    max_spawn_number: 0,
                    percentage: 10_000,
                },
            ),
            (
                Content::Bank(0, 0),
                OxAgContentOptions {
                    in_batches: false,
                    is_present: true,
                    min_spawn_number: 1,
                    max_radius: 3,
                    with_max_spawn_number: false,
                    max_spawn_number: 0,
                    percentage: 10_000,
                },
            ),
            (
                Content::Water(0),
                OxAgContentOptions {
                    in_batches: false,
                    is_present: true,
                    min_spawn_number: 4,
                    max_radius: 1,
                    with_max_spawn_number: false,
                    max_spawn_number: 0,
                    percentage: 1_000_000,
                },
            ),
            (
                Content::Fish(0),
                OxAgContentOptions {
                    in_batches: false,
                    is_present: true,
                    min_spawn_number: 0,
                    max_radius: 1,
                    with_max_spawn_number: false,
                    max_spawn_number: 0,
                    percentage: 200_000,
                },
            ),
        ]
    }

    /// The list that the preset `Empty` stands for.
    pub open spec fn empty_list() -> Seq<(Content, OxAgContentOptions)> {
        Seq::new(16, |k: int| (Content::all_spec()[k], OxAgContentOptions::default_spec()))
    }

    /// The list that a preset stands for.
    pub open spec fn list(self) -> Seq<(Content, OxAgContentOptions)> {
        match self {
            OxAgContentPresets::Empty => Self::empty_list(),
            OxAgContentPresets::Default => Self::default_list(),
        }
    }
}

impl Loadable<Vec<(Content, OxAgContentOptions)>> for OxAgContentPresets {
    open spec fn loads(&self, value: &Vec<(Content, OxAgContentOptions)>) -> bool {
        value@ == self.list()
    }

    fn load(&self) -> (r: Vec<(Content, OxAgContentOptions)>) {
        match self {
            OxAgContentPresets::Empty => {
                let kinds: Vec<Content> = Content::all();
                let mut list: Vec<(Content, OxAgContentOptions)> = Vec::new();
                let mut k: usize = 0;
                while k < 16
                    invariant
                        k <= 16,
                        kinds@ == Content::all_spec(),
                        list.len() == k,
                        forall|j: int|
                            0 <= j < k ==> (#[trigger] list[j]) == (
                                Content::all_spec()[j],
                                OxAgContentOptions::default_spec(),
                            ),
                    decreases 16 - k,
                {
                    list.push((kinds[k], OxAgContentOptions::default()));
                    k += 1;
                }
                assert(list@ =~= Self::empty_list());
                list
            },
            OxAgContentPresets::Default => {
                let list: Vec<(Content, OxAgContentOptions)> = vec![
                    (
                        Content::Rock(0),
                        OxAgContentOptions {
                            in_batches: false,
                            is_present: true,
                            min_spawn_number: 20,
                            max_radius: 0,
                            with_max_spawn_number: false,
                            max_spawn_number: 0,
                            percentage: 80_000,
                        },
                    ),
                    (
                        Content::Tree(0),
                        OxAgContentOptions {
                            in_batches: true,
                            is_present: true,
                            min_spawn_number: 3,
                            max_radius: 10,
                            with_max_spawn_number: false,
                            max_spawn_number: 100,
                            percentage: 300_000,
                        },
                    ),
                    (
                        Content::Garbage(0),
                        OxAgContentOptions {
                            in_batches: true,
                            is_present: true,
                            min_spawn_number: 2,
                            max_radius: 2,
                            with_max_spawn_number: false,
                            max_spawn_number: 0,
                            percentage: 30_000,
                        },
                    ),
                    (
                        Content::Fire,
                        OxAgContentOptions {
                            in_batches: true,
                            is_present: true,
                            min_spawn_number: 2,
                            max_radius: 2,
                            with_max_spawn_number: true,
                            max_spawn_number: 6,
                            percentage: 40_000,
                        },
                    ),
                    (
                        Content::Coin(0),
                        OxAgContentOptions {
                            in_batches: false,
                            is_present: true,
                            min_spawn_number: 2,
                            max_radius: 3,
                            with_max_spawn_number: false,
                            max_spawn_number: 0,
                            percentage: 70_000,
                        },
                    ),
                    (
                        Content::Bin(0, 0),
                        OxAgContentOptions {
                            in_batches: false,
                            is_present: true,
                            min_spawn_number: 1,
                            max_radius: 3,
                            with_max_spawn_number: false,
                            max_spawn_number: 0,
                            percentage: 10_000,
                        },
                    ),
                    (
                        Content::Crate(0, 0),
                        OxAgContentOptions {
                            in_batches: false,
                            is_present: true,
                            min_spawn_number: 1,
                            max_radius: 1,
                            with_max_spawn_number: false,
                            max_spawn_number: 0,
                            percentage: 10_000,
                        },
                    ),
                    (
                        Content::Bank(0, 0),
                        OxAgContentOptions {
                            in_batches: false,
                            is_present: true,
                            min_spawn_number: 1,
                            max_radius: 3,
                            with_max_spawn_number: false,
                            max_spawn_number: 0,
                            percentage: 10_000,
                        },
                    ),
                    (
                        Content::Water(0),
                        OxAgContentOptions {
                            in_batches: false,
                            is_present: true,
                            min_spawn_number: 4,
                            max_radius: 1,
                            with_max_spawn_number: false,
                            max_spawn_number: 0,
                            percentage: 1_000_000,
                        },
                    ),
                    (
                        Content::Fish(0),
                        OxAgContentOptions {
                            in_batches: false,
                            is_present: true,
                            min_spawn_number: 0,
                            max_radius: 1,
                            with_max_spawn_number: false,
                            max_spawn_number: 0,
                            percentage: 200_000,
                        },
                    ),
                ];
                assert(list@ =~= Self::default_list());
                list
            },
        }
    }
}

/// Every preset is a valid list of options.
pub proof fn lemma_content_presets_valid(preset: OxAgContentPresets, list: Vec<(Content, OxAgContentOptions)>)
    requires
        preset.loads(&list),
    ensures
        list.validation() is Ok,
        forall|k: int| 0 <= k < list.len() ==> (#[trigger] list[k]).1.valid(),
{
    assert forall|k: int| 0 <= k < list.len() implies (#[trigger] list[k]).1.valid() by {
        assert(list[k] == preset.list()[k]);
    }
    lemma_all_valid(list@);
}

} // verus!
