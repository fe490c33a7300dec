//! The clustered nearest-neighbour search.
use vstd::prelude::*;

use crate::decision::{decision_on, law_three_frauds_refuse, score_neighbors, FraudResponse};
use crate::distance::{
    centroid_distance, distance_formula, signed, squared_distance, squared_distance_i8,
};
use crate::formula::Formula;
use crate::quantize::quantized_component;
use crate::ranking::{rank_clusters, ranking};
use crate::single::{single, Single};
use crate::text::{decimal, decimal_text};
use crate::top_k::{
    holds_nearest, law_offering_keeps_nearest, lemma_offered_all_concat, offered, offered_all,
    slot_labels, Neighbor, TopK,
};
use crate::{DIMENSIONS, TOP_K};

verus! {

/// Bytes of one stored single-precision number.
pub const SINGLE_BYTES: usize = 4;

/// Bytes of one stored centroid.
pub const CENTROID_BYTES: usize = 56;

/// What the artifact files hold.
#[derive(Clone, Debug)]
pub struct ArtifactMeta {
    pub version: u32,
    pub dimensions: usize,
    pub vector_count: u64,
    pub cluster_count: usize,
    pub probe_count: usize,
    pub list_offsets: Vec<u64>,
    pub list_lengths: Vec<u32>,
}

/// Why artifacts cannot be searched.
#[derive(Clone, Copy, Debug, PartialEq, Eq, Structural)]
pub enum OpenError {
    /// The vectors have another number of components.
    DimensionMismatch { got: usize },
    /// The centroid file has another size than its clusters take.
    CentroidSizeMismatch { expected: usize, got: usize },
}

/// Why a search found no answer.
#[derive(Clone, Copy, Debug, PartialEq, Eq, Structural)]
pub enum SearchError {
    /// A list refers to a vector past the end of the vectors.
    VectorOutOfBounds,
    /// A list refers to a label past the end of the labels.
    LabelOutOfBounds,
    /// The lists hold fewer than [`TOP_K`] candidates.
    NotEnoughCandidates,
}

impl OpenError {
    /// The error in words.
    pub fn message(&self) -> (text: String)
        ensures
            text@ == match self {
                OpenError::DimensionMismatch { got } => "artifact dimension mismatch: expected "@
                    + decimal(DIMENSIONS as nat) + " got "@ + decimal(*got as nat),
                OpenError::CentroidSizeMismatch { expected, got } =>
                    "centroids.bin size mismatch: expected "@ + decimal(*expected as nat)
                    + " got "@ + decimal(*got as nat),
            },
    {
        let (start, expected, got): (&str, usize, usize) = match self {
            OpenError::DimensionMismatch { got } => (
                "artifact dimension mismatch: expected ",
                DIMENSIONS,
                *got,
            ),
            OpenError::CentroidSizeMismatch { expected, got } => (
                "centroids.bin size mismatch: expected ",
                *expected,
                *got,
            ),
        };
        let mut text = start.to_owned();
        text.append(decimal_text(expected).as_str());
        text.append(" got ");
        text.append(decimal_text(got).as_str());
        text
    }
}

impl SearchError {
    /// The error in words.
    pub fn message(&self) -> (text: String)
        ensures
            text@ == match self {
                SearchError::VectorOutOfBounds => "vector slice out of bounds"@,
                SearchError::LabelOutOfBounds => "label index out of bounds"@,
                SearchError::NotEnoughCandidates =>
                    "not enough candidates to score top-5 neighbors"@,
            },
    {
        match self {
            SearchError::VectorOutOfBounds => "vector slice out of bounds".to_owned(),
            SearchError::LabelOutOfBounds => "label index out of bounds".to_owned(),
            SearchError::NotEnoughCandidates =>
                "not enough candidates to score top-5 neighbors".to_owned(),
        }
    }
}

/// The number of lists to probe, as asked for: at least one, at most all.
pub open spec fn overridden_probe_count(asked: usize, cluster_count: usize) -> usize {
    let at_least_one = if asked < 1 {
        1
    } else {
        asked
    };
    if at_least_one < cluster_count {
        at_least_one
    } else {
        cluster_count
    }
}

impl ArtifactMeta {
    /// The metadata once a probe count has been asked for.
    pub open spec fn overridden(self, probe_override: Option<usize>) -> ArtifactMeta {
        match probe_override {
            Some(asked) => ArtifactMeta {
                probe_count: overridden_probe_count(asked, self.cluster_count),
                ..self
            },
            None => self,
        }
    }

    /// Applies a probe count and checks that the vectors have [`DIMENSIONS`]
    /// components.
    pub fn prepare(self, probe_override: Option<usize>) -> (result: Result<ArtifactMeta, OpenError>)
        ensures
            self.dimensions == DIMENSIONS ==> result == Ok::<ArtifactMeta, OpenError>(
                self.overridden(probe_override),
            ),
            self.dimensions != DIMENSIONS ==> result == Err::<ArtifactMeta, OpenError>(
                OpenError::DimensionMismatch { got: self.dimensions },
            ),
    {
        let mut meta = self;
        if let Some(asked) = probe_override {
            let at_least_one: usize = if asked < 1 {
                1
            } else {
                asked
            };
            meta.probe_count = if at_least_one < meta.cluster_count {
                at_least_one
            } else {
                meta.cluster_count
            };
        }
        if meta.dimensions != DIMENSIONS {
            return Err(OpenError::DimensionMismatch { got: meta.dimensions });
        }
        Ok(meta)
    }
}

/// The number stored in the four bytes at `at`, the lowest byte first.
pub open spec fn stored_single(raw: Seq<u8>, at: int) -> Single {
    Single {
        bits: (raw[at] + 0x100 * raw[at + 1] + 0x1_0000 * raw[at + 2] + 0x100_0000 * raw[at
            + 3]) as u32,
    }
}

/// The centroid stored at position `cluster`.
pub open spec fn stored_centroid(raw: Seq<u8>, cluster: int) -> Seq<Single> {
    Seq::new(
        DIMENSIONS as nat,
        |component: int|
            stored_single(raw, CENTROID_BYTES * cluster + SINGLE_BYTES * component),
    )
}

/// Whether these are the centroids stored in `raw`.
pub open spec fn are_stored_centroids(
    centroids: Seq<[Single; DIMENSIONS]>,
    raw: Seq<u8>,
    cluster_count: nat,
) -> bool {
    &&& centroids.len() == cluster_count
    &&& forall|cluster: int|
        0 <= cluster < cluster_count ==> #[trigger] centroids[cluster]@ == stored_centroid(
            raw,
            cluster,
        )
}

/// Reads the number stored in the four bytes at `at`.
fn read_single(raw: &[u8], at: usize) -> (value: Single)
    requires
        at + SINGLE_BYTES <= raw@.len(),
    ensures
        value == stored_single(raw@, at as int),
{
    Single {
        bits: raw[at] as u32 + 0x100 * raw[at + 1] as u32 + 0x1_0000 * raw[at + 2] as u32
            + 0x100_0000 * raw[at + 3] as u32,
    }
}

/// Reads one centroid, the numbers of its components one after the other.
fn read_centroid(raw: &[u8], start: usize) -> (centroid: [Single; DIMENSIONS])
    requires
        start + CENTROID_BYTES <= raw.len(),
    ensures
        forall|component: int|
            0 <= component < DIMENSIONS ==> #[trigger] centroid@[component] == stored_single(
                raw@,
                start + SINGLE_BYTES * component,
            ),
{
    let mut centroid: [Single; DIMENSIONS] = [Single { bits: 0 };DIMENSIONS];
    for idx in 0..DIMENSIONS
        invariant
            start + CENTROID_BYTES <= raw.len(),
            forall|component: int|
                0 <= component < idx ==> #[trigger] centroid@[component] == stored_single(
                    raw@,
                    start + SINGLE_BYTES * component,
                ),
    {
        centroid[idx] = read_single(raw, start + SINGLE_BYTES * idx);
    }
    centroid
}

/// Decodes the centroids of `cluster_count` clusters.
pub fn load_centroids(raw: &[u8], cluster_count: usize) -> (result: Result<
    Vec<[Single; DIMENSIONS]>,
    OpenError,
>)
    requires
        CENTROID_BYTES * cluster_count <= usize::MAX,
    ensures
        match result {
            Ok(centroids) => {
                &&& raw@.len() == CENTROID_BYTES * cluster_count
                &&& are_stored_centroids(centroids@, raw@, cluster_count as nat)
            },
            Err(error) => {
                &&& raw@.len() != CENTROID_BYTES * cluster_count
                &&& error == OpenError::CentroidSizeMismatch {
                    expected: (CENTROID_BYTES * cluster_count) as usize,
                    got: raw.len(),
                }
            },
        },
{
    let expected: usize = CENTROID_BYTES * cluster_count;
    if raw.len() != expected {
        return Err(OpenError::CentroidSizeMismatch { expected, got: raw.len() });
    }
    let mut centroids: Vec<[Single; DIMENSIONS]> = Vec::new();
    for idx in 0..cluster_count
        invariant
            raw@.len() == CENTROID_BYTES * cluster_count,
            raw@.len() <= usize::MAX,
            are_stored_centroids(centroids@, raw@, idx as nat),
    {
        let centroid: [Single; DIMENSIONS] = read_centroid(raw, CENTROID_BYTES * idx);
        assert(centroid@ =~= stored_centroid(raw@, idx as int));
        centroids.push(centroid);
    }
    Ok(centroids)
}

/// A searchable set of reference vectors.
pub struct SearchEngine<'a> {
    pub meta: ArtifactMeta,
    pub centroids: Vec<[Single; DIMENSIONS]>,
    /// The quantised reference vectors, one byte per component, list by list.
    pub vectors: &'a [u8],
    /// The label of each reference vector.
    pub labels: &'a [u8],
}

impl<'a> SearchEngine<'a> {
    /// Opens artifacts from the contents of their files.
    pub fn open(
        meta: ArtifactMeta,
        probe_override: Option<usize>,
        centroids: &[u8],
        vectors: &'a [u8],
        labels: &'a [u8],
    ) -> (result: Result<SearchEngine<'a>, OpenError>)
        requires
            meta.dimensions == DIMENSIONS ==> CENTROID_BYTES * meta.cluster_count <= usize::MAX,
        ensures
            match result {
                Ok(engine) => {
                    &&& meta.dimensions == DIMENSIONS
                    &&& centroids@.len() == CENTROID_BYTES * meta.cluster_count
                    &&& engine.meta == meta.overridden(probe_override)
                    &&& are_stored_centroids(
                        engine.centroids@,
                        centroids@,
                        meta.cluster_count as nat,
                    )
                    &&& engine.vectors@ == vectors@
                    &&& engine.labels@ == labels@
                },
                Err(OpenError::DimensionMismatch { got }) => {
                    &&& meta.dimensions != DIMENSIONS
                    &&& got == meta.dimensions
                },
                Err(OpenError::CentroidSizeMismatch { expected, got }) => {
                    &&& meta.dimensions == DIMENSIONS
                    &&& centroids@.len() != CENTROID_BYTES * meta.cluster_count
                    &&& expected == CENTROID_BYTES * meta.cluster_count
                    &&& got == centroids.len()
                },
            },
    {
        let meta = match meta.prepare(probe_override) {
            Ok(meta) => meta,
            Err(error) => return Err(error),
        };
        match load_centroids(centroids, meta.cluster_count) {
            Ok(centroids) => Ok(SearchEngine { meta, centroids, vectors, labels }),
            Err(error) => Err(error),
        }
    }

    /// The position of the first vector of a list.
    pub open spec fn list_start(&self, cluster: int) -> int {
        self.meta.list_offsets@[cluster] as usize as int
    }

    /// The number of vectors in a list.
    pub open spec fn list_len(&self, cluster: int) -> nat {
        self.meta.list_lengths@[cluster] as nat
    }

    /// Whether the list of a cluster is described and its first vector, if it
    /// has one, at a position that can be addressed.
    pub open spec fn list_in_range(&self, cluster: int) -> bool {
        &&& cluster < self.meta.list_offsets@.len()
        &&& cluster < self.meta.list_lengths@.len()
        &&& self.list_len(cluster) > 0 ==> DIMENSIONS * (self.list_start(cluster) + 1)
            <= usize::MAX
    }

    /// The candidate at a position, or what is missing there.
    pub open spec fn candidate_at(&self, query: Seq<i8>, position: int) -> Result<
        Neighbor,
        SearchError,
    > {
        let base = DIMENSIONS * position;
        if base + DIMENSIONS > self.vectors@.len() {
            Err(SearchError::VectorOutOfBounds)
        } else if position >= self.labels@.len() {
            Err(SearchError::LabelOutOfBounds)
        } else {
            Ok(
                Neighbor {
                    distance: squared_distance(
                        query,
                        self.vectors@.subrange(base, base + DIMENSIONS),
                        DIMENSIONS as nat,
                    ) as u32,
                    label: self.labels@[position],
                },
            )
        }
    }

    /// What is kept after `count` vectors from position `start` on have been
    /// offered, and the error that ended this early, if one did.
    pub open spec fn scanned_from(
        &self,
        query: Seq<i8>,
        kept: Seq<Neighbor>,
        start: int,
        count: nat,
    ) -> (Seq<Neighbor>, Option<SearchError>)
        decreases count,
    {
        if count == 0 {
            (kept, None)
        } else {
            let (before, error) = self.scanned_from(query, kept, start, (count - 1) as nat);
            if error is Some {
                (before, error)
            } else {
                match self.candidate_at(query, start + count - 1) {
                    Ok(candidate) => (offered(before, candidate), None),
                    Err(error) => (before, Some(error)),
                }
            }
        }
    }

    /// What is kept after the list of a cluster has been scanned, and the error
    /// that ended this early, if one did.
    pub open spec fn scanned(&self, cluster: int, query: Seq<i8>, kept: Seq<Neighbor>) -> (
        Seq<Neighbor>,
        Option<SearchError>,
    ) {
        self.scanned_from(query, kept, self.list_start(cluster), self.list_len(cluster))
    }

    /// Whether the search ends after `probed` lists.
    pub open spec fn probed_enough(&self, probed: nat, kept: Seq<Neighbor>) -> bool {
        probed >= self.meta.probe_count && kept.len() >= TOP_K
    }

    /// What the search keeps that goes on with list number `probed` of `order`:
    /// nothing if it comes upon a list that is out of range.
    pub open spec fn searched_from(
        &self,
        query: Seq<i8>,
        order: Seq<usize>,
        probed: nat,
        kept: Seq<Neighbor>,
    ) -> Option<Result<Seq<Neighbor>, SearchError>>
        decreases order.len() - probed,
    {
        if probed >= order.len() {
            Some(Ok(kept))
        } else if !self.list_in_range(order[probed as int] as int) {
            None
        } else {
            let (next, error) = self.scanned(order[probed as int] as int, query, kept);
            match error {
                Some(error) => Some(Err(error)),
                None => if self.probed_enough(probed + 1, next) {
                    Some(Ok(next))
                } else {
                    self.searched_from(query, order, probed + 1, next)
                },
            }
        }
    }

    /// The answer of a search that probes the lists in this order.
    pub open spec fn answer(&self, query: Seq<i8>, order: Seq<usize>) -> Option<
        Result<FraudResponse, SearchError>,
    > {
        match self.searched_from(query, order, 0, Seq::empty()) {
            None => None,
            Some(Err(error)) => Some(Err(error)),
            Some(Ok(kept)) => if kept.len() < TOP_K {
                Some(Err(SearchError::NotEnoughCandidates))
            } else {
                Some(Ok(decision_on(slot_labels(kept))))
            },
        }
    }

    /// Offers every vector of a cluster's list.
    pub fn scan_cluster(
        &self,
        cluster_idx: usize,
        query: &[i8; DIMENSIONS],
        top_k: &mut TopK,
    ) -> (result: Result<(), SearchError>)
        requires
            old(top_k).wf(),
            self.list_in_range(cluster_idx as int),
        ensures
            final(top_k).wf(),
            final(top_k)@ == self.scanned(cluster_idx as int, query@, old(top_k)@).0,
            match self.scanned(cluster_idx as int, query@, old(top_k)@).1 {
                None => result == Ok::<(), SearchError>(()),
                Some(error) => result == Err::<(), SearchError>(error),
            },
    {
        let start: usize = self.meta.list_offsets[cluster_idx] as usize;
        let len: usize = self.meta.list_lengths[cluster_idx] as usize;
        proof {
            self.lemma_scan_stops(query@, old(top_k)@, start as int, 0, len as nat);
        }
        for item_idx in 0..len
            invariant
                top_k.wf(),
                start == self.list_start(cluster_idx as int),
                len == self.list_len(cluster_idx as int),
                DIMENSIONS * (start + 1) <= usize::MAX || len == 0,
                self.scanned_from(query@, old(top_k)@, start as int, item_idx as nat) == (
                    top_k@,
                    None::<SearchError>,
                ),
                item_idx > 0 ==> DIMENSIONS * (start + item_idx) <= self.vectors.len(),
        {
            let absolute_idx: usize = start + item_idx;
            let base: usize = absolute_idx * DIMENSIONS;
            proof {
                self.lemma_scan_stops(
                    query@,
                    old(top_k)@,
                    start as int,
                    (item_idx + 1) as nat,
                    len as nat,
                );
            }
            if base > self.vectors.len() || self.vectors.len() - base < DIMENSIONS {
                return Err(SearchError::VectorOutOfBounds);
            }
            if absolute_idx >= self.labels.len() {
                return Err(SearchError::LabelOutOfBounds);
            }
            let candidate: &[u8] = vstd::slice::slice_subrange(
                self.vectors,
                base,
                base + DIMENSIONS,
            );
            let label: u8 = self.labels[absolute_idx];
            let distance: u32 = squared_distance_i8(query, candidate);
            top_k.insert(distance, label);
        }
        Ok(())
    }

    /// An error met after `count` vectors ends the whole scan.
    proof fn lemma_scan_stops(
        &self,
        query: Seq<i8>,
        kept: Seq<Neighbor>,
        start: int,
        count: nat,
        len: nat,
    )
        requires
            count <= len,
        ensures
            self.scanned_from(query, kept, start, count).1 is Some ==> self.scanned_from(
                query,
                kept,
                start,
                len,
            ) == self.scanned_from(query, kept, start, count),
        decreases len,
    {
        if count < len {
            self.lemma_scan_stops(query, kept, start, count, (len - 1) as nat);
        }
    }

    /// Whether the list of a cluster can be scanned.
    fn is_list_in_range(&self, cluster: usize) -> (result: bool)
        ensures
            result == self.list_in_range(cluster as int),
    {
        if cluster >= self.meta.list_offsets.len() || cluster >= self.meta.list_lengths.len() {
            return false;
        }
        self.meta.list_lengths[cluster] == 0 || (self.meta.list_offsets[cluster] as usize)
            < usize::MAX / DIMENSIONS
    }

    /// The distance of each centroid to a query.
    pub fn centroid_distances(&self, query: &[Single; DIMENSIONS]) -> (distances: Vec<Formula>)
        ensures
            distances@.len() == self.centroids@.len(),
            forall|cluster: int|
                0 <= cluster < distances@.len() ==> #[trigger] distances@[cluster]
                    == distance_formula(query@, self.centroids@[cluster]@, DIMENSIONS as nat),
    {
        let mut distances: Vec<Formula> = Vec::new();
        for idx in 0..self.centroids.len()
            invariant
                distances@.len() == idx,
                forall|cluster: int|
                    0 <= cluster < idx ==> #[trigger] distances@[cluster] == distance_formula(
                        query@,
                        self.centroids@[cluster]@,
                        DIMENSIONS as nat,
                    ),
        {
            distances.push(centroid_distance(query, &self.centroids[idx]));
        }
        distances
    }

    /// The answer to a query, where `byte_of` and `number_of` say what the formulas
    /// of its quantised components and of the centroids' distances come to.
    pub open spec fn answer_to(
        &self,
        query: Seq<Single>,
        byte_of: spec_fn(Formula) -> i8,
        number_of: spec_fn(Formula) -> Single,
    ) -> Option<Result<FraudResponse, SearchError>> {
        let quantized = query.map_values(
            |component: Single| byte_of(quantized_component(component)),
        );
        let distances = self.centroids@.map_values(
            |centroid: [Single; DIMENSIONS]|
                number_of(distance_formula(query, centroid@, DIMENSIONS as nat)),
        );
        self.answer(quantized, ranking(distances))
    }

    /// Scores a quantised query, given the distances that
    /// [`SearchEngine::centroid_distances`] come to: nothing if the search comes
    /// upon a list that is out of range.
    pub fn try_score(&self, query: &[i8; DIMENSIONS], distances: &[Single]) -> (result: Option<
        Result<FraudResponse, SearchError>,
    >)
        ensures
            result == self.answer(query@, ranking(distances@)),
    {
        let order: Vec<usize> = rank_clusters(distances);
        let mut top_k = TopK::new();
        let mut probed: usize = 0;
        while probed < order.len()
            invariant_except_break
                order@ == ranking(distances@),
                top_k.wf(),
                probed <= order.len(),
                self.searched_from(query@, order@, probed as nat, top_k@) == self.searched_from(
                    query@,
                    order@,
                    0,
                    Seq::empty(),
                ),
            ensures
                order@ == ranking(distances@),
                top_k.wf(),
                self.searched_from(query@, order@, 0, Seq::empty()) == Some(
                    Ok::<Seq<Neighbor>, SearchError>(top_k@),
                ),
            decreases order.len() - probed,
        {
            let cluster: usize = order[probed];
            if !self.is_list_in_range(cluster) {
                return None;
            }
            if let Err(error) = self.scan_cluster(cluster, query, &mut top_k) {
                return Some(Err(error));
            }
            probed += 1;
            if probed >= self.meta.probe_count && top_k.len() >= TOP_K {
                break;
            }
        }
        if top_k.len() < TOP_K {
            return Some(Err(SearchError::NotEnoughCandidates));
        }
        Some(Ok(score_neighbors(&top_k.labels())))
    }

    /// Scores a quantised query, given the distances that
    /// [`SearchEngine::centroid_distances`] come to.
    pub fn score(&self, query: &[i8; DIMENSIONS], distances: &[Single]) -> (result: Result<
        FraudResponse,
        SearchError,
    >)
        requires
            self.answer(query@, ranking(distances@)) is Some,
        ensures
            self.answer(query@, ranking(distances@)) == Some(result),
    {
        match self.try_score(query, distances) {
            Some(result) => result,
            None => vstd::pervasive::unreached(),
        }
    }

    /// The candidates of a cluster's list, if none of them is missing.
    pub open spec fn listed(&self, query: Seq<i8>, cluster: int) -> Seq<Neighbor> {
        Seq::new(
            self.list_len(cluster),
            |i: int| self.candidate_at(query, self.list_start(cluster) + i)->Ok_0,
        )
    }

    /// The candidates of several lists, one list after the other.
    pub open spec fn listed_all(&self, query: Seq<i8>, clusters: Seq<usize>) -> Seq<Neighbor>
        decreases clusters.len(),
    {
        if clusters.len() == 0 {
            Seq::empty()
        } else {
            self.listed_all(query, clusters.drop_last()) + self.listed(
                query,
                clusters.last() as int,
            )
        }
    }

    /// How many lists of `order` are probed in all by a search that goes on with
    /// list number `probed`.
    pub open spec fn probed_in_all(
        &self,
        query: Seq<i8>,
        order: Seq<usize>,
        probed: nat,
        kept: Seq<Neighbor>,
    ) -> nat
        decreases order.len() - probed,
    {
        if probed >= order.len() {
            probed
        } else {
            let (next, error) = self.scanned(order[probed as int] as int, query, kept);
            if error is Some || self.probed_enough(probed + 1, next) {
                probed + 1
            } else {
                self.probed_in_all(query, order, probed + 1, next)
            }
        }
    }

    /// A scan without an error has offered the whole list.
    proof fn lemma_scan_offers_list(
        &self,
        query: Seq<i8>,
        kept: Seq<Neighbor>,
        start: int,
        count: nat,
    )
        ensures
            self.scanned_from(query, kept, start, count).1 is None ==> self.scanned_from(
                query,
                kept,
                start,
                count,
            ).0 == offered_all(
                kept,
                Seq::new(count, |i: int| self.candidate_at(query, start + i)->Ok_0),
            ),
        decreases count,
    {
        let list = Seq::new(count, |i: int| self.candidate_at(query, start + i)->Ok_0);
        if count > 0 {
            let fewer = (count - 1) as nat;
            self.lemma_scan_offers_list(query, kept, start, fewer);
            assert(list.drop_last() =~= Seq::new(
                fewer,
                |i: int| self.candidate_at(query, start + i)->Ok_0,
            ));
        }
    }

    /// A search that goes on after the lists probed so far keeps what offering
    /// the candidates of all probed lists keeps.
    proof fn lemma_search_offers_lists(
        &self,
        query: Seq<i8>,
        order: Seq<usize>,
        probed: nat,
        kept: Seq<Neighbor>,
    )
        requires
            probed <= order.len(),
            kept == offered_all(
                Seq::empty(),
                self.listed_all(query, order.take(probed as int)),
            ),
            self.searched_from(query, order, probed, kept) matches Some(Ok(_)),
        ensures
            ({
                let found = self.searched_from(query, order, probed, kept)->0->Ok_0;
                let count = self.probed_in_all(query, order, probed, kept);
                &&& probed <= count <= order.len()
                &&& found == offered_all(
                    Seq::empty(),
                    self.listed_all(query, order.take(count as int)),
                )
                &&& count < order.len() ==> self.probed_enough(count, found)
            }),
        decreases order.len() - probed,
    {
        if probed < order.len() {
            let cluster = order[probed as int] as int;
            let (next, error) = self.scanned(cluster, query, kept);
            let before = self.listed_all(query, order.take(probed as int));
            let list = self.listed(query, cluster);
            self.lemma_scan_offers_list(
                query,
                kept,
                self.list_start(cluster),
                self.list_len(cluster),
            );
            assert(order.take((probed + 1) as int).drop_last() =~= order.take(probed as int));
            lemma_offered_all_concat(Seq::empty(), before, list);
            if !self.probed_enough(probed + 1, next) {
                self.lemma_search_offers_lists(query, order, probed + 1, next);
            }
        }
    }

    /// A search that meets no error keeps the nearest of all candidates in the
    /// lists that it probes. It probes the lists in order, and leaves none out
    /// unless it has probed as many as it should and holds [`TOP_K`] candidates.
    pub proof fn law_search_keeps_nearest(&self, query: Seq<i8>, order: Seq<usize>)
        requires
            self.searched_from(query, order, 0, Seq::empty()) matches Some(Ok(_)),
        ensures
            ({
                let kept = self.searched_from(query, order, 0, Seq::empty())->0->Ok_0;
                let count = self.probed_in_all(query, order, 0, Seq::empty());
                &&& count <= order.len()
                &&& holds_nearest(kept, self.listed_all(query, order.take(count as int)))
                &&& count < order.len() ==> count >= self.meta.probe_count && kept.len() == TOP_K
            }),
    {
        assert(order.take(0) =~= Seq::<usize>::empty());
        self.lemma_search_offers_lists(query, order, 0, Seq::empty());
        let count = self.probed_in_all(query, order, 0, Seq::empty());
        law_offering_keeps_nearest(self.listed_all(query, order.take(count as int)));
    }

    /// Lists past the probe count are probed only as long as those before them
    /// hold fewer than [`TOP_K`] candidates.
    proof fn lemma_probes_no_more(
        &self,
        query: Seq<i8>,
        order: Seq<usize>,
        probed: nat,
        kept: Seq<Neighbor>,
    )
        requires
            probed <= order.len(),
            kept == offered_all(
                Seq::empty(),
                self.listed_all(query, order.take(probed as int)),
            ),
            self.searched_from(query, order, probed, kept) matches Some(Ok(_)),
        ensures
            forall|count: int|
                probed < count < self.probed_in_all(query, order, probed, kept) && count
                    >= self.meta.probe_count ==> self.listed_all(
                    query,
                    #[trigger] order.take(count),
                ).len() < TOP_K,
        decreases order.len() - probed,
    {
        if probed < order.len() {
            let cluster = order[probed as int] as int;
            let (next, error) = self.scanned(cluster, query, kept);
            let before = self.listed_all(query, order.take(probed as int));
            let list = self.listed(query, cluster);
            self.lemma_scan_offers_list(
                query,
                kept,
                self.list_start(cluster),
                self.list_len(cluster),
            );
            assert(order.take((probed + 1) as int).drop_last() =~= order.take(probed as int));
            lemma_offered_all_concat(Seq::empty(), before, list);
            law_offering_keeps_nearest(before + list);
            if !self.probed_enough(probed + 1, next) {
                self.lemma_probes_no_more(query, order, probed + 1, next);
            }
        }
    }

    /// The number of probed lists is bounded: if the first lists, as many as should
    /// be probed, hold [`TOP_K`] candidates, the search probes no more than these.
    pub proof fn law_probes_are_bounded(&self, query: Seq<i8>, order: Seq<usize>)
        requires
            self.searched_from(query, order, 0, Seq::empty()) matches Some(Ok(_)),
            1 <= self.meta.probe_count <= order.len(),
            self.listed_all(query, order.take(self.meta.probe_count as int)).len() >= TOP_K,
        ensures
            self.probed_in_all(query, order, 0, Seq::empty()) == self.meta.probe_count,
    {
        assert(order.take(0) =~= Seq::<usize>::empty());
        self.law_search_keeps_nearest(query, order);
        self.lemma_probes_no_more(query, order, 0, Seq::empty());
    }

    /// An answer is decided by the labels of [`TOP_K`] candidates, the nearest of
    /// those in the probed lists.
    pub proof fn law_nearest_decide(&self, query: Seq<i8>, order: Seq<usize>)
        requires
            self.answer(query, order) matches Some(Ok(_)),
        ensures
            ({
                let kept = self.searched_from(query, order, 0, Seq::empty())->0->Ok_0;
                let count = self.probed_in_all(query, order, 0, Seq::empty());
                &&& kept.len() == TOP_K
                &&& holds_nearest(kept, self.listed_all(query, order.take(count as int)))
                &&& self.answer(query, order)->0->Ok_0 == decision_on(
                    kept.map_values(|neighbor: Neighbor| neighbor.label),
                )
            }),
    {
        let kept = self.searched_from(query, order, 0, Seq::empty())->0->Ok_0;
        self.law_search_keeps_nearest(query, order);
        assert(slot_labels(kept) =~= kept.map_values(|neighbor: Neighbor| neighbor.label));
    }

    /// A query is answered by what its own formulas come to: those that
    /// [`crate::quantize::quantize_vector`] gives for its components and
    /// [`SearchEngine::centroid_distances`] for its distances.
    pub proof fn law_formulas_of_query_decide(
        &self,
        query: Seq<Single>,
        components: Seq<Formula>,
        distances: Seq<Formula>,
        byte_of: spec_fn(Formula) -> i8,
        number_of: spec_fn(Formula) -> Single,
    )
        requires
            components == query.map_values(
                |component: Single| quantized_component(component),
            ),
            distances.len() == self.centroids@.len(),
            forall|cluster: int|
                0 <= cluster < distances.len() ==> #[trigger] distances[cluster]
                    == distance_formula(query, self.centroids@[cluster]@, DIMENSIONS as nat),
        ensures
            self.answer(
                components.map_values(byte_of),
                ranking(distances.map_values(number_of)),
            ) == self.answer_to(query, byte_of, number_of),
    {
        assert(components.map_values(byte_of) =~= query.map_values(
            |component: Single| byte_of(quantized_component(component)),
        ));
        assert(distances.map_values(number_of) =~= self.centroids@.map_values(
            |centroid: [Single; DIMENSIONS]|
                number_of(distance_formula(query, centroid@, DIMENSIONS as nat)),
        ));
    }

    /// With a probe count that covers all lists the search is exact: it keeps
    /// the nearest of all candidates.
    pub proof fn law_exhaustive_search_is_exact(&self, query: Seq<i8>, order: Seq<usize>)
        requires
            self.meta.probe_count >= order.len(),
            self.searched_from(query, order, 0, Seq::empty()) matches Some(Ok(_)),
        ensures
            holds_nearest(
                self.searched_from(query, order, 0, Seq::empty())->0->Ok_0,
                self.listed_all(query, order),
            ),
    {
        self.law_search_keeps_nearest(query, order);
        assert(order.take(order.len() as int) =~= order);
    }

    /// A search fails for want of candidates only when all lists together hold
    /// fewer than [`TOP_K`].
    pub proof fn law_shortage_is_total(&self, query: Seq<i8>, order: Seq<usize>)
        requires
            self.answer(query, order) == Some(
                Err::<FraudResponse, SearchError>(SearchError::NotEnoughCandidates),
            ),
        ensures
            self.listed_all(query, order).len() < TOP_K,
    {
        self.lemma_scan_errors(query, order, 0, Seq::empty());
        self.law_search_keeps_nearest(query, order);
        assert(order.take(order.len() as int) =~= order);
    }

    /// Whether the list of a cluster is in range and lies within the vectors and the
    /// labels.
    pub open spec fn list_stored(&self, cluster: int) -> bool {
        let end = self.list_start(cluster) + self.list_len(cluster);
        &&& self.list_in_range(cluster)
        &&& self.list_len(cluster) > 0 ==> DIMENSIONS * end <= self.vectors@.len() && end
            <= self.labels@.len()
    }

    /// Vectors that are stored are scanned without an error.
    proof fn lemma_stored_vectors_are_scanned(
        &self,
        query: Seq<i8>,
        kept: Seq<Neighbor>,
        start: int,
        count: nat,
    )
        requires
            count > 0 ==> DIMENSIONS * (start + count) <= self.vectors@.len() && start + count
                <= self.labels@.len(),
        ensures
            self.scanned_from(query, kept, start, count).1 is None,
        decreases count,
    {
        if count > 0 {
            self.lemma_stored_vectors_are_scanned(query, kept, start, (count - 1) as nat);
        }
    }

    /// Lists that are stored are searched without an error.
    proof fn lemma_stored_lists_are_searched(
        &self,
        query: Seq<i8>,
        order: Seq<usize>,
        probed: nat,
        kept: Seq<Neighbor>,
    )
        requires
            forall|i: int|
                probed <= i < order.len() ==> self.list_stored(#[trigger] order[i] as int),
        ensures
            self.searched_from(query, order, probed, kept) matches Some(Ok(_)),
        decreases order.len() - probed,
    {
        if probed < order.len() {
            let cluster = order[probed as int] as int;
            let (next, error) = self.scanned(cluster, query, kept);
            assert(self.list_stored(cluster));
            self.lemma_stored_vectors_are_scanned(
                query,
                kept,
                self.list_start(cluster),
                self.list_len(cluster),
            );
            if !self.probed_enough(probed + 1, next) {
                self.lemma_stored_lists_are_searched(query, order, probed + 1, next);
            }
        }
    }

    /// More lists hold no fewer candidates.
    proof fn lemma_more_lists_hold_more(&self, query: Seq<i8>, order: Seq<usize>, count: int)
        requires
            0 <= count <= order.len(),
        ensures
            self.listed_all(query, order.take(count)).len() <= self.listed_all(query, order).len(),
        decreases order.len(),
    {
        if count < order.len() {
            self.lemma_more_lists_hold_more(query, order.drop_last(), count);
            assert(order.drop_last().take(count) =~= order.take(count));
        } else {
            assert(order.take(count) =~= order);
        }
    }

    /// Over lists that are all stored a search has an answer exactly if they hold
    /// [`TOP_K`] candidates together, and otherwise fails for want of candidates.
    pub proof fn law_stored_lists_are_answered(&self, query: Seq<i8>, order: Seq<usize>)
        requires
            forall|i: int| 0 <= i < order.len() ==> self.list_stored(#[trigger] order[i] as int),
        ensures
            self.answer(query, order) matches Some(Ok(_)) <==> self.listed_all(query, order).len()
                >= TOP_K,
            self.answer(query, order) == Some(
                Err::<FraudResponse, SearchError>(SearchError::NotEnoughCandidates),
            ) <==> self.listed_all(query, order).len() < TOP_K,
    {
        self.lemma_stored_lists_are_searched(query, order, 0, Seq::empty());
        self.law_search_keeps_nearest(query, order);
        let count = self.probed_in_all(query, order, 0, Seq::empty());
        self.lemma_more_lists_hold_more(query, order, count as int);
        assert(order.take(order.len() as int) =~= order);
    }

    /// A scan runs out of vectors or labels only.
    proof fn lemma_scan_errors(
        &self,
        query: Seq<i8>,
        order: Seq<usize>,
        probed: nat,
        kept: Seq<Neighbor>,
    )
        ensures
            self.searched_from(query, order, probed, kept) != Some(
                Err::<Seq<Neighbor>, SearchError>(SearchError::NotEnoughCandidates),
            ),
        decreases order.len() - probed,
    {
        if probed < order.len() && self.list_in_range(order[probed as int] as int) {
            let cluster = order[probed as int] as int;
            let (next, error) = self.scanned(cluster, query, kept);
            self.lemma_list_errors(query, kept, self.list_start(cluster), self.list_len(cluster));
            if error is None && !self.probed_enough(probed + 1, next) {
                self.lemma_scan_errors(query, order, probed + 1, next);
            }
        }
    }

    proof fn lemma_list_errors(&self, query: Seq<i8>, kept: Seq<Neighbor>, start: int, count: nat)
        ensures
            self.scanned_from(query, kept, start, count).1 != Some(
                SearchError::NotEnoughCandidates,
            ),
        decreases count,
    {
        if count > 0 {
            self.lemma_list_errors(query, kept, start, (count - 1) as nat);
        }
    }

    /// A search over lists that are all in range never comes upon one that is
    /// not.
    pub proof fn law_lists_in_range_are_searched(
        &self,
        query: Seq<i8>,
        order: Seq<usize>,
        probed: nat,
        kept: Seq<Neighbor>,
    )
        requires
            forall|i: int|
                probed <= i < order.len() ==> self.list_in_range(#[trigger] order[i] as int),
        ensures
            self.searched_from(query, order, probed, kept) is Some,
        decreases order.len() - probed,
    {
        if probed < order.len() {
            let (next, error) = self.scanned(order[probed as int] as int, query, kept);
            if error is None && !self.probed_enough(probed + 1, next) {
                self.law_lists_in_range_are_searched(query, order, probed + 1, next);
            }
        }
    }
}

/// A number is read back from its four bytes.
pub proof fn law_single_is_read_back(bits: u32, raw: Seq<u8>)
    requires
        raw.len() == SINGLE_BYTES,
        raw[0] == bits % 0x100,
        raw[1] == bits / 0x100 % 0x100,
        raw[2] == bits / 0x1_0000 % 0x100,
        raw[3] == bits / 0x100_0000,
    ensures
        stored_single(raw, 0) == single(bits),
{
}

/// Asking for a probe count yields one between one and the number of clusters,
/// and asking again for the result changes nothing.
pub proof fn law_probe_count_in_range(asked: usize, cluster_count: usize)
    ensures
        overridden_probe_count(asked, cluster_count) <= cluster_count,
        cluster_count >= 1 ==> overridden_probe_count(asked, cluster_count) >= 1,
        1 <= asked <= cluster_count ==> overridden_probe_count(asked, cluster_count) == asked,
        overridden_probe_count(overridden_probe_count(asked, cluster_count), cluster_count)
            == overridden_probe_count(asked, cluster_count),
{
}

/// How many vectors the metadata lists for some clusters together.
pub open spec fn listed_in_metadata(lengths: Seq<u32>, clusters: Seq<usize>) -> int
    decreases clusters.len(),
{
    if clusters.len() == 0 {
        0
    } else {
        listed_in_metadata(lengths, clusters.drop_last()) + lengths[clusters.last() as int]
    }
}

proof fn lemma_distance_bound(query: Seq<i8>, candidate: Seq<u8>, count: nat)
    ensures
        0 <= squared_distance(query, candidate, count) <= 65025 * count,
    decreases count,
{
    if count > 0 {
        lemma_distance_bound(query, candidate, (count - 1) as nat);
        let delta = query[count - 1] - signed(candidate[count - 1]);
        assert(0 <= delta * delta <= 65025) by (nonlinear_arith)
            requires
                -255 <= delta <= 255,
        ;
    }
}

impl<'a> SearchEngine<'a> {
    /// A stored vector is a candidate with its own distance and its own label, and
    /// where a vector or else a label is missing there is none.
    pub proof fn law_stored_vector_is_a_candidate(&self, query: Seq<i8>, position: int)
        requires
            position >= 0,
        ensures
            self.candidate_at(query, position) is Ok <==> 14 * position + 14 <= self.vectors@.len()
                && position < self.labels@.len(),
            14 * position + 14 > self.vectors@.len() ==> self.candidate_at(query, position) == Err::<
                Neighbor,
                SearchError,
            >(SearchError::VectorOutOfBounds),
            14 * position + 14 <= self.vectors@.len() && position >= self.labels@.len()
                ==> self.candidate_at(query, position) == Err::<Neighbor, SearchError>(
                SearchError::LabelOutOfBounds,
            ),
            self.candidate_at(query, position) matches Ok(candidate) ==> {
                &&& candidate.distance == squared_distance(
                    query,
                    self.vectors@.subrange(14 * position, 14 * position + 14),
                    14,
                )
                &&& candidate.label == self.labels@[position]
            },
    {
        lemma_distance_bound(
            query,
            self.vectors@.subrange(14 * position, 14 * position + 14),
            14,
        );
    }

    /// A list can be scanned exactly if the metadata gives its offset and its length
    /// and, unless it is empty, its first vector can be addressed.
    pub proof fn law_lists_in_range(&self, cluster: int)
        ensures
            self.list_in_range(cluster) <==> {
                &&& cluster < self.meta.list_offsets@.len()
                &&& cluster < self.meta.list_lengths@.len()
                &&& self.meta.list_lengths@[cluster] == 0 || 14 * (
                self.meta.list_offsets@[cluster] as usize) + 14 <= usize::MAX
            },
    {
    }

    /// A scan ends at the first position that has no vector or no label, with the
    /// error of that position, and otherwise without one.
    pub proof fn law_scan_ends_at_first_gap(
        &self,
        query: Seq<i8>,
        kept: Seq<Neighbor>,
        cluster: int,
        gap: int,
    )
        requires
            0 <= cluster < self.meta.list_lengths@.len(),
        ensures
            ({
                let offset = self.meta.list_offsets@[cluster] as usize;
                let length = self.meta.list_lengths@[cluster];
                let error = self.scanned(cluster, query, kept).1;
                &&& length == 0 || (14 * (offset + length) <= self.vectors@.len() && offset + length
                    <= self.labels@.len()) <==> error is None
                &&& 0 <= gap < length && 14 * (offset + gap) <= self.vectors@.len() && offset + gap
                    <= self.labels@.len() && 14 * (offset + gap) + 14 > self.vectors@.len()
                    ==> error == Some(SearchError::VectorOutOfBounds)
                &&& 0 <= gap < length && 14 * (offset + gap) + 14 <= self.vectors@.len() && offset
                    + gap == self.labels@.len() ==> error == Some(SearchError::LabelOutOfBounds)
            }),
    {
        let start = self.list_start(cluster);
        let len = self.list_len(cluster);
        self.lemma_gap(query, kept, start, len);
        if 0 <= gap < len {
            self.lemma_gap(query, kept, start, gap as nat);
            self.lemma_scan_stops(query, kept, start, (gap + 1) as nat, len);
        }
    }

    proof fn lemma_gap(&self, query: Seq<i8>, kept: Seq<Neighbor>, start: int, count: nat)
        requires
            start >= 0,
        ensures
            self.scanned_from(query, kept, start, count).1 is None <==> count == 0 || (14 * (start
                + count) <= self.vectors@.len() && start + count <= self.labels@.len()),
        decreases count,
    {
        if count > 0 {
            self.lemma_gap(query, kept, start, (count - 1) as nat);
        }
    }

    /// A scan that ends at a gap has offered the vectors before it, and those alone.
    pub proof fn law_scan_offers_what_precedes_a_gap(
        &self,
        query: Seq<i8>,
        kept: Seq<Neighbor>,
        cluster: int,
        gap: int,
        i: int,
    )
        requires
            0 <= cluster < self.meta.list_lengths@.len(),
            0 <= gap < self.meta.list_lengths@[cluster],
            ({
                let end = self.meta.list_offsets@[cluster] as usize + gap;
                &&& gap == 0 || (14 * end <= self.vectors@.len() && end <= self.labels@.len())
                &&& 14 * end + 14 > self.vectors@.len() || end >= self.labels@.len()
            }),
        ensures
            ({
                let position = self.meta.list_offsets@[cluster] as usize + i;
                let list = self.listed(query, cluster).take(gap);
                &&& self.scanned(cluster, query, kept).0 == offered_all(kept, list)
                &&& list.len() == gap
                &&& 0 <= i < gap ==> list[i].label == self.labels@[position] && list[i].distance
                    == squared_distance(
                    query,
                    self.vectors@.subrange(14 * position, 14 * position + 14),
                    14,
                )
            }),
    {
        let start = self.list_start(cluster);
        let len = self.list_len(cluster);
        self.lemma_gap(query, kept, start, gap as nat);
        self.lemma_scan_offers_list(query, kept, start, gap as nat);
        self.lemma_gap(query, kept, start, (gap + 1) as nat);
        self.lemma_scan_stops(query, kept, start, (gap + 1) as nat, len);
        assert(self.listed(query, cluster).take(gap) =~= Seq::new(
            gap as nat,
            |i: int| self.candidate_at(query, start + i)->Ok_0,
        ));
        if 0 <= i < gap {
            self.law_stored_vector_is_a_candidate(query, start + i);
        }
    }

    /// A scan without an error offers every vector that the metadata lists, in order
    /// and once: as many as the length says, from the offset on.
    pub proof fn law_scan_offers_what_is_listed(
        &self,
        query: Seq<i8>,
        kept: Seq<Neighbor>,
        cluster: int,
    )
        requires
            0 <= cluster < self.meta.list_lengths@.len(),
            self.scanned(cluster, query, kept).1 is None,
        ensures
            ({
                let offset = self.meta.list_offsets@[cluster] as usize as int;
                let length = self.meta.list_lengths@[cluster];
                let list = self.listed(query, cluster);
                &&& self.scanned(cluster, query, kept).0 == offered_all(kept, list)
                &&& list.len() == length
                &&& forall|i: int|
                    0 <= i < length ==> {
                        &&& (#[trigger] list[i]).distance == squared_distance(
                            query,
                            self.vectors@.subrange(14 * (offset + i), 14 * (offset + i) + 14),
                            14,
                        )
                        &&& list[i].label == self.labels@[offset + i]
                    }
            }),
    {
        let offset = self.meta.list_offsets@[cluster] as usize as int;
        self.lemma_scan_offers_list(
            query,
            kept,
            self.list_start(cluster),
            self.list_len(cluster),
        );
        self.law_scan_ends_at_first_gap(query, kept, cluster, 0);
        assert forall|i: int| 0 <= i < self.meta.list_lengths@[cluster] implies {
            &&& (#[trigger] self.listed(query, cluster)[i]).distance == squared_distance(
                query,
                self.vectors@.subrange(14 * (offset + i), 14 * (offset + i) + 14),
                14,
            )
            &&& self.listed(query, cluster)[i].label == self.labels@[offset + i]
        } by {
            self.law_stored_vector_is_a_candidate(query, offset + i);
        }
    }

    /// The lists that a search probes are scanned without an error.
    proof fn lemma_probed_lists_are_sound(
        &self,
        query: Seq<i8>,
        order: Seq<usize>,
        probed: nat,
        kept: Seq<Neighbor>,
        at: int,
    )
        requires
            self.searched_from(query, order, probed, kept) matches Some(Ok(_)),
            probed <= at < self.probed_in_all(query, order, probed, kept),
        ensures
            at < order.len(),
            self.list_in_range(order[at] as int),
            exists|before: Seq<Neighbor>|
                (#[trigger] self.scanned(order[at] as int, query, before)).1 is None,
        decreases order.len() - probed,
    {
        if probed < order.len() {
            let (next, error) = self.scanned(order[probed as int] as int, query, kept);
            if at > probed {
                self.lemma_probed_lists_are_sound(query, order, probed + 1, next, at);
            }
        }
    }

    proof fn lemma_listed_all_counts(&self, query: Seq<i8>, clusters: Seq<usize>)
        ensures
            self.listed_all(query, clusters).len() == listed_in_metadata(
                self.meta.list_lengths@,
                clusters,
            ),
        decreases clusters.len(),
    {
        if clusters.len() > 0 {
            self.lemma_listed_all_counts(query, clusters.drop_last());
        }
    }

    /// Every item of a list is among the candidates of all lists.
    proof fn lemma_listed_all_contains(
        &self,
        query: Seq<i8>,
        clusters: Seq<usize>,
        at: int,
        item: int,
    )
        requires
            0 <= at < clusters.len(),
            0 <= item < self.listed(query, clusters[at] as int).len(),
        ensures
            self.listed_all(query, clusters).contains(
                self.listed(query, clusters[at] as int)[item],
            ),
        decreases clusters.len(),
    {
        let before = self.listed_all(query, clusters.drop_last());
        let list = self.listed(query, clusters.last() as int);
        let all = self.listed_all(query, clusters);
        if at == clusters.len() - 1 {
            assert(all[before.len() + item] == list[item]);
        } else {
            self.lemma_listed_all_contains(query, clusters.drop_last(), at, item);
            let wanted = self.listed(query, clusters[at] as int)[item];
            let k = choose|k: int| 0 <= k < before.len() && before[k] == wanted;
            assert(all[k] == wanted);
        }
    }

    /// Every candidate of all lists is an item of one.
    proof fn lemma_listed_all_from(&self, query: Seq<i8>, clusters: Seq<usize>, k: int) -> (r: (
        int,
        int,
    ))
        requires
            0 <= k < self.listed_all(query, clusters).len(),
        ensures
            0 <= r.0 < clusters.len(),
            0 <= r.1 < self.listed(query, clusters[r.0] as int).len(),
            self.listed_all(query, clusters)[k] == self.listed(query, clusters[r.0] as int)[r.1],
        decreases clusters.len(),
    {
        let before = self.listed_all(query, clusters.drop_last());
        if k < before.len() {
            self.lemma_listed_all_from(query, clusters.drop_last(), k)
        } else {
            (clusters.len() - 1, k - before.len())
        }
    }

    /// A search that meets no error considers every vector that the metadata lists for
    /// a probed cluster: the vector is among the candidates, and it is kept, or else
    /// none that is kept is farther.
    pub proof fn law_every_listed_vector_is_considered(
        &self,
        query: Seq<i8>,
        order: Seq<usize>,
        at: int,
        i: int,
    )
        requires
            self.searched_from(query, order, 0, Seq::empty()) matches Some(Ok(_)),
            0 <= at < self.probed_in_all(query, order, 0, Seq::empty()),
            0 <= i < self.meta.list_lengths@[order[at] as int],
        ensures
            ({
                let kept = self.searched_from(query, order, 0, Seq::empty())->0->Ok_0;
                let count = self.probed_in_all(query, order, 0, Seq::empty());
                let position = self.meta.list_offsets@[order[at] as int] as usize + i;
                let distance = squared_distance(
                    query,
                    self.vectors@.subrange(14 * position, 14 * position + 14),
                    14,
                );
                let vector = Neighbor {
                    distance: distance as u32,
                    label: self.labels@[position],
                };
                &&& 14 * position + 14 <= self.vectors@.len()
                &&& position < self.labels@.len()
                &&& vector.distance == distance
                &&& self.listed_all(query, order.take(count as int)).contains(vector)
                &&& kept.contains(vector) || forall|slot: int|
                    0 <= slot < kept.len() ==> (#[trigger] kept[slot]).distance <= distance
            }),
    {
        let kept = self.searched_from(query, order, 0, Seq::empty())->0->Ok_0;
        let count = self.probed_in_all(query, order, 0, Seq::empty());
        let clusters = order.take(count as int);
        let candidates = self.listed_all(query, clusters);
        let cluster = order[at] as int;
        self.law_search_keeps_nearest(query, order);
        self.lemma_probed_lists_are_sound(query, order, 0, Seq::empty(), at);
        let before = choose|before: Seq<Neighbor>|
            (#[trigger] self.scanned(cluster, query, before)).1 is None;
        self.law_scan_offers_what_is_listed(query, before, cluster);
        self.law_scan_ends_at_first_gap(query, before, cluster, 0);
        assert(clusters[at] == order[at]);
        self.lemma_listed_all_contains(query, clusters, at, i);
        let vector = self.listed(query, cluster)[i];
        let left_out = candidates.to_multiset().sub(kept.to_multiset());
        broadcast use vstd::seq_lib::group_to_multiset_ensures;

        assert(candidates.to_multiset().count(vector) > 0);
        if !kept.contains(vector) {
            assert(kept.to_multiset().count(vector) == 0);
            assert(left_out.count(vector) > 0);
        }
    }

    /// What a search keeps are vectors that the metadata lists for probed clusters.
    pub proof fn law_kept_vectors_are_listed(
        &self,
        query: Seq<i8>,
        order: Seq<usize>,
        slot: int,
    ) -> (found: (int, int))
        requires
            self.searched_from(query, order, 0, Seq::empty()) matches Some(Ok(kept)) && 0 <= slot
                < kept.len(),
        ensures
            ({
                let kept = self.searched_from(query, order, 0, Seq::empty())->0->Ok_0;
                let cluster = order[found.0] as int;
                let position = self.meta.list_offsets@[cluster] as usize + found.1;
                &&& 0 <= found.0 < self.probed_in_all(query, order, 0, Seq::empty())
                &&& 0 <= found.1 < self.meta.list_lengths@[cluster]
                &&& kept[slot].label == self.labels@[position]
                &&& kept[slot].distance == squared_distance(
                    query,
                    self.vectors@.subrange(14 * position, 14 * position + 14),
                    14,
                )
            }),
    {
        let kept = self.searched_from(query, order, 0, Seq::empty())->0->Ok_0;
        let count = self.probed_in_all(query, order, 0, Seq::empty());
        let clusters = order.take(count as int);
        let candidates = self.listed_all(query, clusters);
        self.law_search_keeps_nearest(query, order);
        broadcast use vstd::seq_lib::group_to_multiset_ensures;

        assert(kept.contains(kept[slot]));
        assert(kept.to_multiset().count(kept[slot]) > 0);
        assert(candidates.to_multiset().count(kept[slot]) > 0);
        assert(candidates.contains(kept[slot]));
        let k = choose|k: int| 0 <= k < candidates.len() && candidates[k] == kept[slot];
        let (at, i) = self.lemma_listed_all_from(query, clusters, k);
        let cluster = order[at] as int;
        self.lemma_probed_lists_are_sound(query, order, 0, Seq::empty(), at);
        let before = choose|before: Seq<Neighbor>|
            (#[trigger] self.scanned(cluster, query, before)).1 is None;
        self.law_scan_offers_what_is_listed(query, before, cluster);
        assert(self.listed(query, cluster)[i] == kept[slot]);
        (at, i)
    }

    /// The candidates of the probed lists are as many as the metadata lists, and five of
    /// them are kept, or all of fewer.
    pub proof fn law_candidates_are_as_many_as_listed(&self, query: Seq<i8>, order: Seq<usize>)
        requires
            self.searched_from(query, order, 0, Seq::empty()) matches Some(Ok(_)),
        ensures
            ({
                let kept = self.searched_from(query, order, 0, Seq::empty())->0->Ok_0;
                let count = self.probed_in_all(query, order, 0, Seq::empty());
                let listed = listed_in_metadata(
                    self.meta.list_lengths@,
                    order.take(count as int),
                );
                &&& self.listed_all(query, order.take(count as int)).len() == listed
                &&& listed >= 5 ==> kept.len() == 5
                &&& listed < 5 ==> kept.len() == listed
            }),
    {
        let count = self.probed_in_all(query, order, 0, Seq::empty());
        self.law_search_keeps_nearest(query, order);
        self.lemma_listed_all_counts(query, order.take(count as int));
    }
}

impl<'a> SearchEngine<'a> {
    /// The candidates of a further list come behind those of the others.
    pub proof fn law_lists_are_joined(&self, query: Seq<i8>, clusters: Seq<usize>, next: usize)
        ensures
            self.listed_all(query, Seq::empty()) == Seq::<Neighbor>::empty(),
            self.listed_all(query, clusters.push(next)) == self.listed_all(query, clusters)
                + self.listed(query, next as int),
    {
        assert(clusters.push(next).drop_last() =~= clusters);
    }

    /// A search goes on while it has probed too few lists or too few candidates.
    proof fn lemma_search_reaches(&self, query: Seq<i8>, order: Seq<usize>, count: int)
        requires
            0 <= count <= order.len(),
            forall|q: int|
                0 <= q < count ==> {
                    let cluster = (#[trigger] order[q]) as int;
                    let end = self.meta.list_offsets@[cluster] as usize
                        + self.meta.list_lengths@[cluster];
                    &&& cluster < self.meta.list_offsets@.len()
                    &&& cluster < self.meta.list_lengths@.len()
                    &&& self.meta.list_lengths@[cluster] == 0 || (14 * end <= self.vectors.len()
                        && end <= self.labels.len())
                },
            forall|m: int|
                0 < m <= count ==> m < self.meta.probe_count || listed_in_metadata(
                    self.meta.list_lengths@,
                    #[trigger] order.take(m),
                ) < 5,
        ensures
            ({
                let kept = offered_all(
                    Seq::empty(),
                    self.listed_all(query, order.take(count)),
                );
                &&& self.searched_from(query, order, 0, Seq::empty()) == self.searched_from(
                    query,
                    order,
                    count as nat,
                    kept,
                )
                &&& self.probed_in_all(query, order, 0, Seq::empty()) == self.probed_in_all(
                    query,
                    order,
                    count as nat,
                    kept,
                )
            }),
        decreases count,
    {
        if count == 0 {
            assert(order.take(0) =~= Seq::<usize>::empty());
        } else {
            let before = count - 1;
            self.lemma_search_reaches(query, order, before);
            let kept = offered_all(Seq::empty(), self.listed_all(query, order.take(before)));
            let cluster = order[before] as int;
            self.lemma_stored_vectors_are_scanned(
                query,
                kept,
                self.list_start(cluster),
                self.list_len(cluster),
            );
            self.lemma_scan_offers_list(
                query,
                kept,
                self.list_start(cluster),
                self.list_len(cluster),
            );
            assert(order.take(count).drop_last() =~= order.take(before));
            lemma_offered_all_concat(
                Seq::empty(),
                self.listed_all(query, order.take(before)),
                self.listed(query, cluster),
            );
            self.lemma_listed_all_counts(query, order.take(count));
            law_offering_keeps_nearest(self.listed_all(query, order.take(count)));
        }
    }

    /// The answer is that of the first lists that are enough: the least number of them
    /// that reaches the probe count and holds five vectors, or else all. With five
    /// vectors the labels of what is kept decide, three frauds refusing, and with fewer
    /// there is no answer. The lists are given by the metadata alone.
    pub proof fn law_first_lists_that_are_enough_answer(
        &self,
        query: Seq<i8>,
        order: Seq<usize>,
        count: int,
    )
        requires
            0 <= count <= order.len(),
            forall|q: int|
                0 <= q < count ==> {
                    let cluster = (#[trigger] order[q]) as int;
                    let end = self.meta.list_offsets@[cluster] as usize
                        + self.meta.list_lengths@[cluster];
                    &&& cluster < self.meta.list_offsets@.len()
                    &&& cluster < self.meta.list_lengths@.len()
                    &&& self.meta.list_lengths@[cluster] == 0 || (14 * end <= self.vectors.len()
                        && end <= self.labels.len())
                },
            forall|m: int|
                0 < m < count ==> m < self.meta.probe_count || listed_in_metadata(
                    self.meta.list_lengths@,
                    #[trigger] order.take(m),
                ) < 5,
            count == order.len() || (count > 0 && count >= self.meta.probe_count
                && listed_in_metadata(self.meta.list_lengths@, order.take(count)) >= 5),
        ensures
            ({
                let listed = listed_in_metadata(self.meta.list_lengths@, order.take(count));
                let kept = self.searched_from(query, order, 0, Seq::empty())->0->Ok_0;
                let labels = kept.map_values(|vector: Neighbor| vector.label);
                let frauds = labels.to_multiset().count(1u8);
                &&& self.probed_in_all(query, order, 0, Seq::empty()) == count
                &&& self.searched_from(query, order, 0, Seq::empty()) matches Some(Ok(_))
                &&& listed < 5 ==> self.answer(query, order) == Some(
                    Err::<FraudResponse, SearchError>(SearchError::NotEnoughCandidates),
                )
                &&& listed >= 5 ==> kept.len() == 5 && self.answer(query, order) == Some(
                    Ok::<FraudResponse, SearchError>(
                        FraudResponse {
                            approved: frauds < 3,
                            fraud_score: Formula::Quotient(
                                Box::new(Formula::Integer(frauds as i64)),
                                Box::new(Formula::Integer(5)),
                            ),
                        },
                    ),
                )
            }),
    {
        let all = self.listed_all(query, order.take(count));
        if count == 0 {
            self.lemma_search_reaches(query, order, 0);
        } else {
            let before = count - 1;
            self.lemma_search_reaches(query, order, before);
            let kept = offered_all(Seq::empty(), self.listed_all(query, order.take(before)));
            let cluster = order[before] as int;
            self.lemma_stored_vectors_are_scanned(
                query,
                kept,
                self.list_start(cluster),
                self.list_len(cluster),
            );
            self.lemma_scan_offers_list(
                query,
                kept,
                self.list_start(cluster),
                self.list_len(cluster),
            );
            assert(order.take(count).drop_last() =~= order.take(before));
            lemma_offered_all_concat(
                Seq::empty(),
                self.listed_all(query, order.take(before)),
                self.listed(query, cluster),
            );
        }
        self.lemma_listed_all_counts(query, order.take(count));
        law_offering_keeps_nearest(all);
        let kept = offered_all(Seq::empty(), all);
        if count == order.len() {
            assert(self.searched_from(query, order, count as nat, kept) == Some(
                Ok::<Seq<Neighbor>, SearchError>(kept),
            ));
            assert(self.probed_in_all(query, order, count as nat, kept) == count);
        }
        assert(self.searched_from(query, order, 0, Seq::empty()) == Some(
            Ok::<Seq<Neighbor>, SearchError>(kept),
        ));
        let labels = kept.map_values(|vector: Neighbor| vector.label);
        if kept.len() == 5 {
            assert(slot_labels(kept) =~= labels);
            law_three_frauds_refuse(labels);
        }
    }

    /// The first list that is reached and cannot be scanned ends the search: without an
    /// answer if it is out of range, and otherwise with the error of the first vector or
    /// label that is missing.
    pub proof fn law_first_gap_ends_search(
        &self,
        query: Seq<i8>,
        order: Seq<usize>,
        count: int,
        gap: int,
    )
        requires
            0 <= count < order.len(),
            forall|q: int|
                0 <= q < count ==> {
                    let cluster = (#[trigger] order[q]) as int;
                    let end = self.meta.list_offsets@[cluster] as usize
                        + self.meta.list_lengths@[cluster];
                    &&& cluster < self.meta.list_offsets@.len()
                    &&& cluster < self.meta.list_lengths@.len()
                    &&& self.meta.list_lengths@[cluster] == 0 || (14 * end <= self.vectors.len()
                        && end <= self.labels.len())
                },
            forall|m: int|
                0 < m <= count ==> m < self.meta.probe_count || listed_in_metadata(
                    self.meta.list_lengths@,
                    #[trigger] order.take(m),
                ) < 5,
        ensures
            ({
                let cluster = order[count] as int;
                let offset = self.meta.list_offsets@[cluster] as usize;
                let length = self.meta.list_lengths@[cluster];
                let described = cluster < self.meta.list_offsets@.len() && cluster
                    < self.meta.list_lengths@.len();
                let in_range = described && (length == 0 || 14 * offset + 14 <= usize::MAX);
                &&& !in_range ==> self.answer(query, order) is None
                &&& in_range && 0 <= gap < length && 14 * (offset + gap) <= self.vectors.len()
                    && offset + gap <= self.labels.len() && 14 * (offset + gap) + 14
                    > self.vectors.len() ==> self.answer(query, order) == Some(
                    Err::<FraudResponse, SearchError>(SearchError::VectorOutOfBounds),
                )
                &&& in_range && 0 <= gap < length && 14 * (offset + gap) + 14 <= self.vectors.len()
                    && offset + gap == self.labels.len() ==> self.answer(query, order) == Some(
                    Err::<FraudResponse, SearchError>(SearchError::LabelOutOfBounds),
                )
            }),
    {
        let cluster = order[count] as int;
        self.lemma_search_reaches(query, order, count);
        let kept = offered_all(Seq::empty(), self.listed_all(query, order.take(count)));
        if self.list_in_range(cluster) {
            self.law_scan_ends_at_first_gap(query, kept, cluster, gap);
        }
    }
}

/// Only the probe count changes when one is asked for, and it becomes the number asked
/// for, or the nearest to it from one to the number of clusters.
pub proof fn law_asking_changes_the_probe_count_alone(meta: ArtifactMeta, asked: usize)
    ensures
        meta.overridden(None) == meta,
        ({
            let changed = meta.overridden(Some(asked));
            &&& changed.version == meta.version
            &&& changed.dimensions == meta.dimensions
            &&& changed.vector_count == meta.vector_count
            &&& changed.cluster_count == meta.cluster_count
            &&& changed.list_offsets == meta.list_offsets
            &&& changed.list_lengths == meta.list_lengths
            &&& 1 <= asked <= meta.cluster_count ==> changed.probe_count == asked
            &&& asked > meta.cluster_count ==> changed.probe_count == meta.cluster_count
            &&& asked == 0 && meta.cluster_count >= 1 ==> changed.probe_count == 1
            &&& meta.cluster_count == 0 ==> changed.probe_count == 0
        }),
{
}

/// Component `component` of centroid `cluster` is read from the four bytes at
/// `56 * cluster + 4 * component`, the lowest byte first, and there are no other
/// centroids.
pub proof fn law_centroids_are_read_in_order(
    centroids: Seq<[Single; DIMENSIONS]>,
    raw: Seq<u8>,
    cluster_count: nat,
    cluster: int,
    component: int,
)
    requires
        are_stored_centroids(centroids, raw, cluster_count),
        0 <= cluster < cluster_count,
        0 <= component < 14,
    ensures
        centroids.len() == cluster_count,
        ({
            let at = 56 * cluster + 4 * component;
            let bits = centroids[cluster]@[component].bits;
            &&& bits % 0x100 == raw[at]
            &&& (bits / 0x100) % 0x100 == raw[at + 1]
            &&& (bits / 0x1_0000) % 0x100 == raw[at + 2]
            &&& bits / 0x100_0000 == raw[at + 3]
        }),
{
    assert(centroids[cluster]@ == stored_centroid(raw, cluster));
}

} // verus!
