//! The builder of world generators.

use vstd::prelude::*;
use crate::utils::constants::DEFAULT_SCORE;
use crate::utils::errors::OxAgError;
use crate::utils::random::{byte_at, drawn_at};
use crate::utils::traits::{FromSeed, Loadable, Validator};
use crate::utils::{generate_random_seed, generate_random_world_size, multiplier_from_seed};
use crate::world::environmental_conditions::EnvironmentalConditions;
use crate::world::tile::Content;
use crate::world_generator::content_options::OxAgContentOptions;
use crate::world_generator::presets::content_presets::OxAgContentPresets;
use crate::world_generator::presets::environmental_presets::OxAgEnvironmentalConditionPresets;
use crate::world_generator::presets::tile_type_presets::OxAgTileTypePresets;
use crate::world_generator::tile_type_options::OxAgTileTypeOptions;
use crate::world_generator::OxAgWorldGenerator;

verus! {

/// Collects what a world generator is made of. Whatever is not set is
/// derived from the seed when the generator is built, and the seed itself
/// is drawn at random where it is not set.
#[derive(Debug)]
pub struct OxAgWorldGeneratorBuilder {
    pub size: Option<usize>,
    pub seed: Option<u64>,
    pub tile_type_options: Option<OxAgTileTypeOptions>,
    pub content_options: Option<Vec<(Content, OxAgContentOptions)>>,
    pub environmental_conditions: Option<EnvironmentalConditions>,
    /// In millionths.
    pub height_multiplier: Option<i64>,
    /// In millionths.
    pub score: Option<i64>,
    pub maze: Option<bool>,
    pub with_info: Option<bool>,
    /// A score for each content, in millionths.
    pub score_map: Option<Vec<(Content, i64)>>,
}

/// The position of the first entry of `list` from `from` on whose kind is
/// that of `content`, or the length of the list where there is none.
pub open spec fn position_of(list: Seq<(Content, OxAgContentOptions)>, content: Content, from: int) -> int
    decreases list.len() - from,
{
    if from < 0 || from >= list.len() {
        list.len() as int
    } else if list[from].0 == content.to_default_spec() {
        from
    } else {
        position_of(list, content, from + 1)
    }
}

/// The list with the options of `content` set: in place of those of the
/// first entry of its kind, or in a new entry at the end.
pub open spec fn upserted(
    list: Seq<(Content, OxAgContentOptions)>,
    content: Content,
    options: OxAgContentOptions,
) -> Seq<(Content, OxAgContentOptions)> {
    let at = position_of(list, content, 0);
    if at < list.len() {
        list.update(at, (list[at].0, options))
    } else {
        list.push((content.to_default_spec(), options))
    }
}

/// The scores as a map from each content to its score: what a map holds
/// once the entries of `scores` were put into it one after another, a later
/// entry taking the place of an earlier one of the same content.
pub open spec fn scores_of(scores: Seq<(Content, i64)>) -> Map<Content, i64>
    decreases scores.len(),
{
    if scores.len() == 0 {
        Map::empty()
    } else {
        scores_of(scores.drop_last()).insert(scores.last().0, scores.last().1)
    }
}

/// No content has two entries in `scores`.
pub open spec fn one_score_each(scores: Seq<(Content, i64)>) -> bool {
    forall|i: int, j: int|
        0 <= i < j < scores.len() ==> (#[trigger] scores[i]).0 != (#[trigger] scores[j]).0
}

/// Where no content has two entries, a new score in the place of an entry
/// is the new score of its content, and nothing else changes.
pub proof fn lemma_score_set(scores: Seq<(Content, i64)>, at: int, score: i64)
    requires
        one_score_each(scores),
        0 <= at < scores.len(),
    ensures
        scores_of(scores.update(at, (scores[at].0, score))) == scores_of(scores).insert(
            scores[at].0,
            score,
        ),
    decreases scores.len(),
{
    let set = scores.update(at, (scores[at].0, score));
    let last = scores.len() - 1;
    if at == last {
        assert(set.drop_last() == scores.drop_last());
        assert(scores_of(set) =~= scores_of(scores).insert(scores[at].0, score));
    } else {
        assert(set.drop_last() == scores.drop_last().update(at, (scores[at].0, score)));
        assert(scores.drop_last()[at] == scores[at]);
        lemma_score_set(scores.drop_last(), at, score);
        assert(scores[at].0 != scores[last].0);
        assert(set.last() == scores.last());
        assert(scores_of(set) =~= scores_of(scores).insert(scores[at].0, score));
    }
}

/// The scores with one entry for each content: each content of `scores`
/// with the score of its last entry, as a map filled entry by entry keeps
/// them. Scores that have one entry for each content stay as they are.
pub fn settle_scores(scores: &Vec<(Content, i64)>) -> (r: Vec<(Content, i64)>)
    ensures
        one_score_each(r@),
        scores_of(r@) == scores_of(scores@),
        one_score_each(scores@) ==> r@ == scores@,
{
    let mut list: Vec<(Content, i64)> = Vec::new();
    let mut k: usize = 0;
    assert(scores@.take(0) =~= Seq::<(Content, i64)>::empty());
    while k < scores.len()
        invariant
            k <= scores.len(),
            one_score_each(list@),
            scores_of(list@) == scores_of(scores@.take(k as int)),
            one_score_each(scores@) ==> list@ == scores@.take(k as int),
            forall|j: int|
                0 <= j < list.len() ==> exists|i: int|
                    0 <= i < k && (#[trigger] scores[i]).0 == (#[trigger] list[j]).0,
        decreases scores.len() - k,
    {
        let entry = scores[k];
        let ghost before = list@;
        let ghost taken = scores@.take(k as int);
        let mut at: usize = 0;
        while at < list.len() && !(list[at].0 == entry.0)
            invariant
                at <= list.len(),
                forall|j: int| 0 <= j < at ==> (#[trigger] list[j]).0 != entry.0,
            decreases list.len() - at,
        {
            at += 1;
        }
        proof {
            assert(scores@.take(k + 1) =~= taken.push(entry));
            assert(taken.push(entry).drop_last() =~= taken);
        }
        if at < list.len() {
            proof {
                lemma_score_set(before, at as int, entry.1);
                if one_score_each(scores@) {
                    let i = choose|i: int|
                        0 <= i < k && (#[trigger] scores[i]).0 == before[at as int].0;
                    assert(scores[i].0 != scores[k as int].0);
                }
            }
            list.set(at, entry);
            assert(list@ == before.update(at as int, (before[at as int].0, entry.1)));
        } else {
            list.push(entry);
            proof {
                assert(list@.drop_last() =~= before);
            }
        }
        proof {
            assert forall|j: int| 0 <= j < list.len() implies exists|i: int|
                0 <= i < k + 1 && (#[trigger] scores[i]).0 == (#[trigger] list[j]).0 by {
                if j < before.len() {
                    let i = choose|i: int| 0 <= i < k && (#[trigger] scores[i]).0 == before[j].0;
                    assert(scores[i].0 == list[j].0);
                } else {
                    assert(scores[k as int].0 == list[j].0);
                }
            }
        }
        k += 1;
    }
    assert(scores@.take(scores.len() as int) == scores@);
    list
}

/// A copy of `list`.
pub fn copy_list<T: Copy>(list: &Vec<T>) -> (r: Vec<T>)
    ensures
        r@ == list@,
{
    let mut copy: Vec<T> = Vec::new();
    let mut k: usize = 0;
    while k < list.len()
        invariant
            k <= list.len(),
            copy@ == list@.take(k as int),
        decreases list.len() - k,
    {
        copy.push(list[k]);
        k += 1;
    }
    assert(list@.take(list.len() as int) == list@);
    copy
}

impl OxAgWorldGeneratorBuilder {
    /// A builder with nothing set.
    pub fn new() -> (b: Self)
        ensures
            b.size is None,
            b.seed is None,
            b.tile_type_options is None,
            b.content_options is None,
            b.environmental_conditions is None,
            b.height_multiplier is None,
            b.score is None,
            b.maze is None,
            b.with_info is None,
            b.score_map is None,
    {
        OxAgWorldGeneratorBuilder {
            size: None,
            seed: None,
            tile_type_options: None,
            content_options: None,
            environmental_conditions: None,
            height_multiplier: None,
            score: None,
            maze: None,
            with_info: None,
            score_map: None,
        }
    }

    /// `g` is the generator that this builder builds: what is set has gone
    /// into it as it is, and what is not set is what the seed of the
    /// generator stands for, but for the score, the report of progress and
    /// the maze, which have their defaults.
    pub open spec fn builds(self, g: OxAgWorldGenerator) -> bool {
        &&& g.map_save is None
        &&& g.maze == (self.maze == Some(true))
        &&& g.maze ==> g.size >= 5
        &&& g.with_info == (self.with_info != Some(false))
        &&& (self.size matches Some(size) ==> g.size == size)
        &&& (self.size is None ==> g.size == byte_at(g.seed, 0, 0, 254) && g.size < 255)
        &&& (self.seed matches Some(seed) ==> g.seed == seed)
        &&& (self.tile_type_options matches Some(o) ==> g.tile_type_options == o)
        &&& (self.tile_type_options is None ==> g.tile_type_options.seeded(g.seed))
        &&& (self.content_options matches Some(list) ==> g.content_options@ == list@)
        &&& (self.content_options is None ==> g.content_options@
            == OxAgContentOptions::seeded_options(g.seed, g.size)
            && OxAgContentOptions::seeded_list(g.content_options@, g.size as int))
        &&& (self.environmental_conditions matches Some(e) ==> {
            &&& g.environmental_conditions.weather() == e.weather()
            &&& g.environmental_conditions.ticks() == e.ticks()
            &&& g.environmental_conditions.hour() == e.hour()
        })
        &&& (self.environmental_conditions is None
            ==> g.environmental_conditions.seeded(g.seed))
        &&& (self.height_multiplier matches Some(m) ==> g.height_multiplier == m)
        &&& (self.height_multiplier is None ==> g.height_multiplier == drawn_at(
            g.seed,
            0,
            0,
            999_999,
        ) && 0 <= g.height_multiplier < 1_000_000)
        &&& (self.score matches Some(s) ==> g.score == s)
        &&& (self.score is None ==> g.score == DEFAULT_SCORE)
        &&& (match (self.score_map, g.score_map) {
            (Some(a), Some(b)) => a@ == b@,
            (None, None) => true,
            _ => false,
        })
    }

    /// Builds the generator. A maze needs a side of at least five cells:
    /// with a smaller one the build fails. What is set goes into the
    /// generator as it is. The size, the height multiplier and the options
    /// that are not set are those that the seed of the generator stands
    /// for, so that equal seeds give equal ones. The score, where not set,
    /// is `DEFAULT_SCORE`; progress is reported unless that is switched
    /// off; no maze is built unless one is asked for.
    pub fn build(&self) -> (r: Result<OxAgWorldGenerator, OxAgError>)
        ensures
            r matches Err(e) ==> e == OxAgError::MazeSizeTooSmall && self.maze == Some(true),
            self.size matches Some(size) ==> (r is Err <==> size < 5 && self.maze == Some(true)),
            self.size is None && self.seed is Some ==> (r is Err <==> byte_at(
                self.seed.unwrap(),
                0,
                0,
                254,
            ) < 5 && self.maze == Some(true)),
            self.maze != Some(true) ==> r is Ok,
            r matches Ok(g) ==> self.builds(g),
    {
        let seed: u64 = match self.seed {
            Some(seed) => seed,
            None => generate_random_seed(),
        };
        let size: usize = match self.size {
            Some(size) => size,
            None => generate_random_world_size(seed),
        };
        let maze: bool = match self.maze {
            Some(maze) => maze,
            None => false,
        };
        if size < 5 && maze {
            return Err(OxAgError::MazeSizeTooSmall);
        }
        let tile_type_options = match self.tile_type_options {
            Some(options) => options,
            None => OxAgTileTypeOptions::new_from_seed(seed),
        };
        let content_options = match &self.content_options {
            Some(list) => copy_list(list),
            None => OxAgContentOptions::new_from_seed(seed, size),
        };
        let environmental_conditions = match &self.environmental_conditions {
            Some(conditions) => conditions.duplicate(),
            None => EnvironmentalConditions::new_from_seed(seed),
        };
        let height_multiplier: i64 = match self.height_multiplier {
            Some(multiplier) => multiplier,
            None => multiplier_from_seed(seed),
        };
        let score: i64 = match self.score {
            Some(score) => score,
            None => DEFAULT_SCORE,
        };
        let with_info: bool = match self.with_info {
            Some(with_info) => with_info,
            None => true,
        };
        let score_map = match &self.score_map {
            Some(scores) => Some(copy_list(scores)),
            None => None,
        };
        Ok(
            OxAgWorldGenerator {
                size,
                seed,
                tile_type_options,
                content_options,
                environmental_conditions,
                height_multiplier,
                score,
                with_info,
                maze,
                score_map,
                map_save: None,
            },
        )
    }

    pub fn set_seed(self, seed: u64) -> (b: Self)
        ensures
            b == (OxAgWorldGeneratorBuilder { seed: Some(seed), ..self }),
    {
        let mut b = self;
        b.seed = Some(seed);
        b
    }

    /// Sets the score, in millionths.
    pub fn set_score(self, score: i64) -> (b: Self)
        ensures
            b == (OxAgWorldGeneratorBuilder { score: Some(score), ..self }),
    {
        let mut b = self;
        b.score = Some(score);
        b
    }

    /// Sets or clears the score of each content, in millionths. The scores
    /// are kept with one entry for each content, as a map from contents to
    /// scores holds them: where a content has several entries, its last
    /// score counts.
    pub fn set_score_map(self, score_map: Option<Vec<(Content, i64)>>) -> (b: Self)
        ensures
            b == (OxAgWorldGeneratorBuilder { score_map: b.score_map, ..self }),
            b.score_map is Some <==> score_map is Some,
            score_map matches Some(scores) ==> {
                &&& one_score_each(b.score_map.unwrap()@)
                &&& scores_of(b.score_map.unwrap()@) == scores_of(scores@)
                &&& one_score_each(scores@) ==> b.score_map.unwrap()@ == scores@
            },
    {
        let mut b = self;
        b.score_map = match &score_map {
            Some(scores) => Some(settle_scores(scores)),
            None => None,
        };
        b
    }

    pub fn set_maze(self, maze: bool) -> (b: Self)
        ensures
            b == (OxAgWorldGeneratorBuilder { maze: Some(maze), ..self }),
    {
        let mut b = self;
        b.maze = Some(maze);
        b
    }

    pub fn set_with_info(self, with_info: bool) -> (b: Self)
        ensures
            b == (OxAgWorldGeneratorBuilder { with_info: Some(with_info), ..self }),
    {
        let mut b = self;
        b.with_info = Some(with_info);
        b
    }

    /// Sets the height multiplier, in millionths.
    pub fn set_height_multiplier(self, multiplier: i64) -> (b: Self)
        ensures
            b == (OxAgWorldGeneratorBuilder { height_multiplier: Some(multiplier), ..self }),
    {
        let mut b = self;
        b.height_multiplier = Some(multiplier);
        b
    }

    pub fn set_size(self, size: usize) -> (b: Self)
        ensures
            b == (OxAgWorldGeneratorBuilder { size: Some(size), ..self }),
    {
        let mut b = self;
        b.size = Some(size);
        b
    }

    /// Sets the terrain options if they are valid, and fails with what
    /// their validation fails with if they are not.
    pub fn set_tile_type_options(self, tile_type_options: OxAgTileTypeOptions) -> (r: Result<
        Self,
        OxAgError,
    >)
        ensures
            match tile_type_options.validation() {
                Ok(_) => r matches Ok(b) && b == (OxAgWorldGeneratorBuilder {
                    tile_type_options: Some(tile_type_options),
                    ..self
                }),
                Err(e) => r matches Err(f) && f == e,
            },
    {
        match tile_type_options.validate() {
            Ok(_) => {
                let mut b = self;
                b.tile_type_options = Some(tile_type_options);
                Ok(b)
            },
            Err(e) => Err(e),
        }
    }

    /// Sets the content options if they are valid, and fails with what
    /// their validation fails with if they are not.
    pub fn set_content_options(self, content_options: Vec<(Content, OxAgContentOptions)>) -> (r:
        Result<Self, OxAgError>)
        ensures
            match content_options.validation() {
                Ok(_) => r matches Ok(b) && b == (OxAgWorldGeneratorBuilder {
                    content_options: Some(content_options),
                    ..self
                }),
                Err(e) => r matches Err(f) && f == e,
            },
    {
        match content_options.validate() {
            Ok(_) => {
                let mut b = self;
                b.content_options = Some(content_options);
                Ok(b)
            },
            Err(e) => Err(e),
        }
    }

    pub fn set_environmental_conditions(self, environmental_conditions: EnvironmentalConditions) -> (b:
        Self)
        ensures
            b == (OxAgWorldGeneratorBuilder {
                environmental_conditions: Some(environmental_conditions),
                ..self
            }),
    {
        let mut b = self;
        b.environmental_conditions = Some(environmental_conditions);
        b
    }

    pub fn set_tile_type_options_from_preset(self, preset: OxAgTileTypePresets) -> (b: Self)
        ensures
            b == (OxAgWorldGeneratorBuilder {
                tile_type_options: Some(preset.options()),
                ..self
            }),
    {
        let mut b = self;
        b.tile_type_options = Some(preset.load());
        b
    }

    pub fn set_content_options_from_preset(self, preset: OxAgContentPresets) -> (b: Self)
        ensures
            b.content_options matches Some(list) && list@ == preset.list(),
            b.size == self.size,
            b.seed == self.seed,
            b.tile_type_options == self.tile_type_options,
            b.environmental_conditions == self.environmental_conditions,
            b.height_multiplier == self.height_multiplier,
            b.score == self.score,
            b.maze == self.maze,
            b.with_info == self.with_info,
            b.score_map == self.score_map,
    {
        let mut b = self;
        b.content_options = Some(preset.load());
        b
    }

    pub fn set_environmental_conditions_from_preset(
        self,
        preset: OxAgEnvironmentalConditionPresets,
    ) -> (b: Self)
        ensures
            b.environmental_conditions matches Some(e) && preset.loads(&e),
            b.size == self.size,
            b.seed == self.seed,
            b.tile_type_options == self.tile_type_options,
            b.content_options == self.content_options,
            b.height_multiplier == self.height_multiplier,
            b.score == self.score,
            b.maze == self.maze,
            b.with_info == self.with_info,
            b.score_map == self.score_map,
    {
        let mut b = self;
        b.environmental_conditions = Some(preset.load());
        b
    }

    /// Sets the options of one kind of content: in place of those that the
    /// list has for the kind, or in a new entry at its end. Fails with
    /// `InvalidContentOptionProvided` if the options are not valid; else
    /// with `CannotSetContentOptionForNone` if the content is `Empty`; else
    /// with `ContentOptionsNotSet` if the builder has no list.
    pub fn alter_content_option(self, content: Content, content_option: OxAgContentOptions) -> (r:
        Result<Self, OxAgError>)
        ensures
            !content_option.valid() ==> r == Err::<Self, OxAgError>(
                OxAgError::InvalidContentOptionProvided,
            ),
            content_option.valid() && content is Empty ==> r == Err::<Self, OxAgError>(
                OxAgError::CannotSetContentOptionForNone,
            ),
            content_option.valid() && !(content is Empty) && self.content_options is None ==> r
                == Err::<Self, OxAgError>(OxAgError::ContentOptionsNotSet),
            content_option.valid() && !(content is Empty) && self.content_options is Some ==> {
                &&& r matches Ok(b)
                &&& b.content_options matches Some(list)
                &&& list@ == upserted(self.content_options.unwrap()@, content, content_option)
                &&& b.size == self.size
                &&& b.seed == self.seed
                &&& b.tile_type_options == self.tile_type_options
                &&& b.environmental_conditions == self.environmental_conditions
                &&& b.height_multiplier == self.height_multiplier
                &&& b.score == self.score
                &&& b.maze == self.maze
                &&& b.with_info == self.with_info
                &&& b.score_map == self.score_map
            },
    {
        if !content_option.is_valid() {
            return Err(OxAgError::InvalidContentOptionProvided);
        }
        match content {
            Content::Empty => {
                return Err(OxAgError::CannotSetContentOptionForNone);
            },
            _ => {},
        }
        let OxAgWorldGeneratorBuilder {
            size,
            seed,
            tile_type_options,
            content_options,
            environmental_conditions,
            height_multiplier,
            score,
            maze,
            with_info,
            score_map,
        } = self;
        let mut list: Vec<(Content, OxAgContentOptions)> = match content_options {
            Some(list) => list,
            None => {
                return Err(OxAgError::ContentOptionsNotSet);
            },
        };
        let ghost before = list@;
        let kind = content.to_default();
        let mut k: usize = 0;
        let mut found: bool = false;
        while k < list.len() && !found
            invariant
                k <= list.len(),
                kind == content.to_default_spec(),
                !found ==> list@ == before && position_of(before, content, 0) == position_of(
                    before,
                    content,
                    k as int,
                ),
                found ==> list@ == upserted(before, content, content_option),
            decreases (list.len() - k) + (if found {
                0int
            } else {
                1int
            }),
        {
            let (c, _) = list[k];
            if c == kind {
                list.set(k, (c, content_option));
                found = true;
            } else {
                k += 1;
            }
        }
        if !found {
            list.push((kind, content_option));
        }
        Ok(
            OxAgWorldGeneratorBuilder {
                size,
                seed,
                tile_type_options,
                content_options: Some(list),
                environmental_conditions,
                height_multiplier,
                score,
                maze,
                with_info,
                score_map,
            },
        )
    }
}

impl Default for OxAgWorldGeneratorBuilder {
    fn default() -> (b: Self)
        ensures
            b.size is None && b.seed is None && b.tile_type_options is None && b.content_options
                is None && b.environmental_conditions is None && b.height_multiplier is None
                && b.score is None && b.maze is None && b.with_info is None && b.score_map
                is None,
    {
        Self::new()
    }
}

/// A builder with a seed builds one generator: two generators that it
/// builds have the same seed and size, the same options, conditions and
/// height multiplier, the same score and scores, and agree on the maze and
/// on the report of progress.
pub proof fn lemma_build_is_decided(
    builder: OxAgWorldGeneratorBuilder,
    a: OxAgWorldGenerator,
    b: OxAgWorldGenerator,
)
    requires
        builder.seed is Some,
        builder.builds(a),
        builder.builds(b),
    ensures
        a.seed == b.seed,
        a.size == b.size,
        a.maze == b.maze,
        a.with_info == b.with_info,
        a.tile_type_options == b.tile_type_options,
        a.content_options@ == b.content_options@,
        a.environmental_conditions.weather() == b.environmental_conditions.weather(),
        a.environmental_conditions.ticks() == b.environmental_conditions.ticks(),
        a.environmental_conditions.hour() == b.environmental_conditions.hour(),
        a.height_multiplier == b.height_multiplier,
        a.score == b.score,
        a.score_map is Some <==> b.score_map is Some,
        a.score_map is Some ==> a.score_map.unwrap()@ == b.score_map.unwrap()@,
        a.map_save == b.map_save,
{
}

} // verus!
