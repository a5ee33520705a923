//! The entity types of the catalog, and what is kept once per type.

use vstd::prelude::*;

verus! {

/// The entity types that a catalog dump is split into.
#[derive(Debug, Clone, Copy, PartialEq, Eq, Structural, Hash)]
pub enum DataType {
    Artists,
    Labels,
    Masters,
    ReleaseGroups,
    Releases,
}

/// The name of an entity type in events and file names.
pub open spec fn name_of_type(data_type: DataType) -> &'static str {
    match data_type {
        DataType::Artists => "artists",
        DataType::Labels => "labels",
        DataType::Masters => "masters",
        DataType::ReleaseGroups => "release-groups",
        DataType::Releases => "releases",
    }
}

/// The entity types that MusicBrainz has: all but masters.
pub open spec fn musicbrainz_types() -> Seq<DataType> {
    seq![DataType::Artists, DataType::Labels, DataType::ReleaseGroups, DataType::Releases]
}

impl DataType {
    /// The name of this type in events and file names.
    pub fn as_str(&self) -> (name: &'static str)
        ensures
            name == name_of_type(*self),
    {
        match self {
            DataType::Artists => "artists",
            DataType::Labels => "labels",
            DataType::Masters => "masters",
            DataType::ReleaseGroups => "release-groups",
            DataType::Releases => "releases",
        }
    }

    /// The entity types that MusicBrainz has.
    pub fn musicbrainz() -> (types: Vec<DataType>)
        ensures
            types@ == musicbrainz_types(),
    {
        vec![DataType::Artists, DataType::Labels, DataType::ReleaseGroups, DataType::Releases]
    }
}

/// Each type has a name of its own.
pub proof fn types_are_told_apart_by_name(one: DataType, other: DataType)
    ensures
        name_of_type(one)@ == name_of_type(other)@ ==> one == other,
{
    reveal_strlit("artists");
    reveal_strlit("labels");
    reveal_strlit("masters");
    reveal_strlit("release-groups");
    reveal_strlit("releases");
    assert("artists"@.len() == 7 && "artists"@[0] == 'a');
    assert("masters"@.len() == 7 && "masters"@[0] == 'm');
    assert("labels"@.len() == 6);
    assert("release-groups"@.len() == 14);
    assert("releases"@.len() == 8);
}

/// MusicBrainz has every type but masters, and each of them is listed once.
pub proof fn musicbrainz_has_all_types_but_masters(data_type: DataType, i: int, j: int)
    ensures
        musicbrainz_types().contains(data_type) <==> data_type != DataType::Masters,
        0 <= i < j < musicbrainz_types().len() ==> musicbrainz_types()[i]
            != musicbrainz_types()[j],
{
    let types = musicbrainz_types();
    assert(types[0] == DataType::Artists && types[1] == DataType::Labels);
    assert(types[2] == DataType::ReleaseGroups && types[3] == DataType::Releases);
}

/// How many records of each type were extracted.
#[derive(Debug, Clone, Copy, PartialEq, Eq, Structural)]
pub struct ExtractionProgress {
    pub artists: u64,
    pub labels: u64,
    pub masters: u64,
    pub release_groups: u64,
    pub releases: u64,
}

/// The count of one type.
pub open spec fn count_of(progress: ExtractionProgress, data_type: DataType) -> u64 {
    match data_type {
        DataType::Artists => progress.artists,
        DataType::Labels => progress.labels,
        DataType::Masters => progress.masters,
        DataType::ReleaseGroups => progress.release_groups,
        DataType::Releases => progress.releases,
    }
}

/// The counts with `count` more records of one type, where that fits.
pub open spec fn counted(
    progress: ExtractionProgress,
    data_type: DataType,
    count: u64,
) -> ExtractionProgress {
    let sum = (count_of(progress, data_type) + count) as u64;
    match data_type {
        DataType::Artists => ExtractionProgress { artists: sum, ..progress },
        DataType::Labels => ExtractionProgress { labels: sum, ..progress },
        DataType::Masters => ExtractionProgress { masters: sum, ..progress },
        DataType::ReleaseGroups => ExtractionProgress { release_groups: sum, ..progress },
        DataType::Releases => ExtractionProgress { releases: sum, ..progress },
    }
}

/// The number of records of all types.
pub open spec fn total_of(progress: ExtractionProgress) -> int {
    progress.artists + progress.labels + progress.masters + progress.release_groups
        + progress.releases
}

/// No record of any type.
pub open spec fn no_progress() -> ExtractionProgress {
    ExtractionProgress { artists: 0, labels: 0, masters: 0, release_groups: 0, releases: 0 }
}

impl Default for ExtractionProgress {
    fn default() -> (progress: ExtractionProgress)
        ensures
            progress == no_progress(),
    {
        ExtractionProgress { artists: 0, labels: 0, masters: 0, release_groups: 0, releases: 0 }
    }
}

impl ExtractionProgress {
    /// The count of one type.
    pub fn get(&self, data_type: DataType) -> (count: u64)
        ensures
            count == count_of(*self, data_type),
    {
        match data_type {
            DataType::Artists => self.artists,
            DataType::Labels => self.labels,
            DataType::Masters => self.masters,
            DataType::ReleaseGroups => self.release_groups,
            DataType::Releases => self.releases,
        }
    }

    /// Count `count` more records of one type.
    pub fn add(&mut self, data_type: DataType, count: u64)
        requires
            count_of(*old(self), data_type) + count <= u64::MAX,
        ensures
            *final(self) == counted(*old(self), data_type, count),
    {
        match data_type {
            DataType::Artists => {
                self.artists = self.artists + count;
            },
            DataType::Labels => {
                self.labels = self.labels + count;
            },
            DataType::Masters => {
                self.masters = self.masters + count;
            },
            DataType::ReleaseGroups => {
                self.release_groups = self.release_groups + count;
            },
            DataType::Releases => {
                self.releases = self.releases + count;
            },
        }
    }

    /// Count one more record of one type.
    pub fn increment(&mut self, data_type: DataType)
        requires
            count_of(*old(self), data_type) < u64::MAX,
        ensures
            *final(self) == counted(*old(self), data_type, 1),
    {
        self.add(data_type, 1);
    }

    /// The number of records of all types, where it fits.
    pub fn checked_total(&self) -> (total: Option<u64>)
        ensures
            total == if total_of(*self) <= u64::MAX {
                Some(total_of(*self) as u64)
            } else {
                None
            },
    {
        let wide: u128 = self.artists as u128 + self.labels as u128 + self.masters as u128
            + self.release_groups as u128 + self.releases as u128;
        if wide <= u64::MAX as u128 {
            Some(wide as u64)
        } else {
            None
        }
    }

    /// The number of records of all types.
    pub fn total(&self) -> (total: u64)
        requires
            total_of(*self) <= u64::MAX,
        ensures
            total == total_of(*self),
    {
        self.artists + self.labels + self.masters + self.release_groups + self.releases
    }
}

/// There is nothing in total exactly where there is nothing of any type.
pub proof fn the_total_is_of_all_types(progress: ExtractionProgress)
    ensures
        total_of(progress) == 0 <==> forall|t: DataType| #[trigger] count_of(progress, t) == 0,
        forall|t: DataType| #[trigger] count_of(no_progress(), t) == 0,
{
    if forall|t: DataType| #[trigger] count_of(progress, t) == 0 {
        assert(count_of(progress, DataType::Artists) == 0);
        assert(count_of(progress, DataType::Labels) == 0);
        assert(count_of(progress, DataType::Masters) == 0);
        assert(count_of(progress, DataType::ReleaseGroups) == 0);
        assert(count_of(progress, DataType::Releases) == 0);
    }
}

/// Counting records of one type adds them to the total and leaves every other count alone.
pub proof fn counting_adds_to_one_type(
    progress: ExtractionProgress,
    data_type: DataType,
    count: u64,
    other: DataType,
)
    requires
        count_of(progress, data_type) + count <= u64::MAX,
    ensures
        total_of(counted(progress, data_type, count)) == total_of(progress) + count,
        count_of(counted(progress, data_type, count), data_type) == count_of(progress, data_type)
            + count,
        other != data_type ==> count_of(counted(progress, data_type, count), other) == count_of(
            progress,
            other,
        ),
{
}

/// At most one value for each entity type.
#[derive(Debug)]
pub struct PerType<V> {
    pub artists: Option<V>,
    pub labels: Option<V>,
    pub masters: Option<V>,
    pub release_groups: Option<V>,
    pub releases: Option<V>,
}

impl<V> PerType<V> {
    /// The value of one type, if it has one.
    pub open spec fn slot(&self, data_type: DataType) -> Option<V> {
        match data_type {
            DataType::Artists => self.artists,
            DataType::Labels => self.labels,
            DataType::Masters => self.masters,
            DataType::ReleaseGroups => self.release_groups,
            DataType::Releases => self.releases,
        }
    }
}

impl<V> View for PerType<V> {
    type V = Map<DataType, V>;

    open spec fn view(&self) -> Map<DataType, V> {
        Map::new(|t: DataType| self.slot(t) is Some, |t: DataType| self.slot(t)->0)
    }
}

impl<V> PerType<V> {
    /// No value for any type.
    pub fn new() -> (map: PerType<V>)
        ensures
            map@ == Map::<DataType, V>::empty(),
    {
        let map = PerType {
            artists: None,
            labels: None,
            masters: None,
            release_groups: None,
            releases: None,
        };
        assert(map@ =~= Map::<DataType, V>::empty());
        map
    }

    /// Take every value out.
    pub fn clear(&mut self)
        ensures
            final(self)@ == Map::<DataType, V>::empty(),
    {
        *self = PerType::new();
    }

    /// The value of one type, if it has one.
    pub fn get(&self, data_type: &DataType) -> (value: Option<&V>)
        ensures
            match value {
                Some(value) => self@.contains_key(*data_type) && self@[*data_type] == *value,
                None => !self@.contains_key(*data_type),
            },
    {
        match data_type {
            DataType::Artists => self.artists.as_ref(),
            DataType::Labels => self.labels.as_ref(),
            DataType::Masters => self.masters.as_ref(),
            DataType::ReleaseGroups => self.release_groups.as_ref(),
            DataType::Releases => self.releases.as_ref(),
        }
    }

    /// Whether one type has a value.
    pub fn contains_key(&self, data_type: &DataType) -> (has: bool)
        ensures
            has == self@.contains_key(*data_type),
    {
        self.get(data_type).is_some()
    }

    fn set(&mut self, data_type: DataType, value: Option<V>)
        ensures
            forall|t: DataType| #[trigger]
                final(self).slot(t) == if t == data_type {
                    value
                } else {
                    old(self).slot(t)
                },
    {
        match data_type {
            DataType::Artists => {
                self.artists = value;
            },
            DataType::Labels => {
                self.labels = value;
            },
            DataType::Masters => {
                self.masters = value;
            },
            DataType::ReleaseGroups => {
                self.release_groups = value;
            },
            DataType::Releases => {
                self.releases = value;
            },
        }
    }

    /// Give one type a value, in place of what it had.
    pub fn insert(&mut self, data_type: DataType, value: V)
        ensures
            final(self)@ == old(self)@.insert(data_type, value),
    {
        self.set(data_type, Some(value));
        assert(self@ =~= old(self)@.insert(data_type, value));
    }

    /// Take the value of one type out.
    pub fn remove(&mut self, data_type: &DataType)
        ensures
            final(self)@ == old(self)@.remove(*data_type),
    {
        self.set(*data_type, None);
        assert(self@ =~= old(self)@.remove(*data_type));
    }

    /// How many types have a value.
    pub fn len(&self) -> (len: usize)
        ensures
            len == self@.dom().len(),
    {
        let mut len: usize = 0;
        let ghost mut seen = Set::<DataType>::empty();
        let all = [
            DataType::Artists,
            DataType::Labels,
            DataType::Masters,
            DataType::ReleaseGroups,
            DataType::Releases,
        ];
        let mut i: usize = 0;
        while i < 5
            invariant
                i <= 5,
                all@ == seq![
                    DataType::Artists,
                    DataType::Labels,
                    DataType::Masters,
                    DataType::ReleaseGroups,
                    DataType::Releases,
                ],
                len <= i,
                seen.finite(),
                seen.len() == len,
                forall|t: DataType|
                    seen.contains(t) <==> self@.contains_key(t) && exists|j: int|
                        0 <= j < i && all@[j] == t,
            decreases 5 - i,
        {
            let ghost before = seen;
            let t = all[i];
            assert(!seen.contains(t));
            if self.contains_key(&t) {
                len = len + 1;
                proof {
                    seen = seen.insert(t);
                }
            }
            proof {
                assert forall|u: DataType|
                    seen.contains(u) <==> self@.contains_key(u) && exists|j: int|
                        0 <= j < i + 1 && all@[j] == u by {
                    if seen.contains(u) {
                        if u == t {
                            assert(all@[i as int] == u);
                        } else {
                            assert(before.contains(u));
                        }
                    }
                    if self@.contains_key(u) && exists|j: int| 0 <= j < i + 1 && all@[j] == u {
                        let j = choose|j: int| 0 <= j < i + 1 && all@[j] == u;
                        if j < i {
                            assert(before.contains(u));
                        }
                    }
                }
            }
            i = i + 1;
        }
        proof {
            assert(seen =~= self@.dom()) by {
                assert forall|t: DataType| self@.dom().contains(t) implies seen.contains(t) by {
                    let j: int = match t {
                        DataType::Artists => 0,
                        DataType::Labels => 1,
                        DataType::Masters => 2,
                        DataType::ReleaseGroups => 3,
                        DataType::Releases => 4,
                    };
                    assert(all@[j] == t);
                }
            }
        }
        len
    }

    /// Whether no type has a value.
    pub fn is_empty(&self) -> (empty: bool)
        ensures
            empty == (self@ == Map::<DataType, V>::empty()),
    {
        let empty = self.artists.is_none() && self.labels.is_none() && self.masters.is_none()
            && self.release_groups.is_none() && self.releases.is_none();
        proof {
            if empty {
                assert(self@ =~= Map::<DataType, V>::empty());
            } else {
                assert(self@.contains_key(DataType::Artists) || self@.contains_key(DataType::Labels)
                    || self@.contains_key(DataType::Masters) || self@.contains_key(
                    DataType::ReleaseGroups,
                ) || self@.contains_key(DataType::Releases));
            }
        }
        empty
    }
}

} // verus!
