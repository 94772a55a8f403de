//! The board: its assets and placements, the images that a message refers to,
//! and how a generated image enters it.

use vstd::prelude::*;
use vstd::string::*;
use crate::codec;

verus! {

/// The place of a generated image among those that its message gives: a message
/// gives one.
pub const OUT_INDEX: i64 = 0;

/// An image file of a board. `rest` is carried along and never looked at.
#[derive(Debug)]
pub struct Asset<A> {
    pub id: String,
    /// The path of the file, relative to the folder of the board.
    pub path: String,
    pub rest: A,
}

/// An asset put on a board. `rest` is carried along and never looked at.
#[derive(Debug)]
pub struct Placement<P> {
    pub id: String,
    pub asset_id: String,
    pub rest: P,
}

/// What a board holds.
#[derive(Debug)]
pub struct BoardDoc<A, P> {
    pub assets: Vec<Asset<A>>,
    pub placements: Vec<Placement<P>>,
}

/// An image that a message refers to. Paths are relative to the folder of the
/// board.
#[derive(Debug)]
pub struct ResolvedRef {
    /// The image itself.
    pub clean_rel: String,
    /// The image with the user's marks on it.
    pub overlay_rel: Option<String>,
}

/// A [`ResolvedRef`], over views.
pub struct RefView {
    pub clean_rel: Seq<char>,
    pub overlay_rel: Option<Seq<char>>,
}

impl View for ResolvedRef {
    type V = RefView;

    open spec fn view(&self) -> RefView {
        RefView {
            clean_rel: self.clean_rel@,
            overlay_rel: match self.overlay_rel {
                Some(path) => Some(path@),
                None => None,
            },
        }
    }
}

/// The references `refs`, over views.
pub open spec fn refs_view(refs: Seq<ResolvedRef>) -> Seq<RefView> {
    refs.map_values(|r: ResolvedRef| r@)
}

/// The first index from `from` on at which `ids` holds `id`.
pub open spec fn first_index(ids: Seq<Seq<char>>, id: Seq<char>, from: int) -> Option<int>
    decreases ids.len() - from,
{
    if from < 0 || from >= ids.len() {
        None
    } else if ids[from] == id {
        Some(from)
    } else {
        first_index(ids, id, from + 1)
    }
}

/// The ids of `assets`, in order.
pub open spec fn asset_ids<A>(assets: Seq<Asset<A>>) -> Seq<Seq<char>> {
    assets.map_values(|a: Asset<A>| a.id@)
}

/// The ids of `placements`, in order.
pub open spec fn placement_ids<P>(placements: Seq<Placement<P>>) -> Seq<Seq<char>> {
    placements.map_values(|p: Placement<P>| p.id@)
}

/// Where the placement `id` and its asset stand in `doc`: the first placement
/// with that id, and the first asset with the id that the placement names.
pub open spec fn placed_asset<A, P>(doc: BoardDoc<A, P>, id: Seq<char>) -> Option<(int, int)> {
    match first_index(placement_ids(doc.placements@), id, 0) {
        None => None,
        Some(p) => match first_index(
            asset_ids(doc.assets@),
            doc.placements@[p].asset_id@,
            0,
        ) {
            None => None,
            Some(a) => Some((p, a)),
        },
    }
}

/// Pairs of texts, over views.
pub open spec fn pairs_view(pairs: Seq<(String, String)>) -> Seq<(Seq<char>, Seq<char>)> {
    pairs.map_values(|p: (String, String)| (p.0@, p.1@))
}

/// The value of the last of `pairs` under `key`.
pub open spec fn last_value(pairs: Seq<(Seq<char>, Seq<char>)>, key: Seq<char>) -> Option<Seq<char>>
    decreases pairs.len(),
{
    if pairs.len() == 0 {
        None
    } else if pairs.last().0 == key {
        Some(pairs.last().1)
    } else {
        last_value(pairs.drop_last(), key)
    }
}

/// Whether one of `pairs` has `key`.
pub open spec fn has_key(pairs: Seq<(Seq<char>, Seq<char>)>, key: Seq<char>) -> bool {
    exists|i: int| 0 <= i < pairs.len() && (#[trigger] pairs[i]).0 == key
}

/// For each key of `pairs` its last pair, the later ones first.
pub open spec fn latest(pairs: Seq<(Seq<char>, Seq<char>)>) -> Seq<(Seq<char>, Seq<char>)>
    decreases pairs.len(),
{
    if pairs.len() == 0 {
        Seq::empty()
    } else {
        let rest = latest(pairs.drop_first());
        if has_key(rest, pairs[0].0) {
            rest
        } else {
            rest.push(pairs[0])
        }
    }
}

/// What the placement `id` refers to on `doc`, with the overlays `overlays`.
pub open spec fn resolved<A, P>(
    doc: BoardDoc<A, P>,
    overlays: Seq<(Seq<char>, Seq<char>)>,
    id: Seq<char>,
) -> Option<RefView> {
    match placed_asset(doc, id) {
        None => None,
        Some((p, a)) => Some(
            RefView { clean_rel: doc.assets@[a].path@, overlay_rel: last_value(overlays, id) },
        ),
    }
}

/// What `sources` refer to on `doc`, in order and without those that refer to
/// nothing.
pub open spec fn resolved_all<A, P>(
    doc: BoardDoc<A, P>,
    overlays: Seq<(Seq<char>, Seq<char>)>,
    sources: Seq<String>,
) -> Seq<RefView>
    decreases sources.len(),
{
    if sources.len() == 0 {
        Seq::empty()
    } else {
        let before = resolved_all(doc, overlays, sources.drop_last());
        match resolved(doc, overlays, sources.last()@) {
            None => before,
            Some(r) => before.push(r),
        }
    }
}

/// The files that a request sends for `refs`: each image, and behind it its
/// overlay where it has one.
pub open spec fn input_paths(refs: Seq<RefView>) -> Seq<Seq<char>>
    decreases refs.len(),
{
    if refs.len() == 0 {
        Seq::empty()
    } else {
        let before = input_paths(refs.drop_last()).push(refs.last().clean_rel);
        match refs.last().overlay_rel {
            None => before,
            Some(path) => before.push(path),
        }
    }
}

/// Whether `after` is the board `before` with `placement` behind its placements
/// and with `asset` behind its assets, unless `before` has an asset of that id.
pub open spec fn is_placed<A, P>(
    before: BoardDoc<A, P>,
    after: BoardDoc<A, P>,
    asset: Asset<A>,
    placement: Placement<P>,
) -> bool {
    &&& after.placements@ == before.placements@.push(placement)
    &&& after.assets@ == (if asset_ids(before.assets@).contains(asset.id@) {
        before.assets@
    } else {
        before.assets@.push(asset)
    })
}

/// The texts `texts`, over views.
pub open spec fn texts_view(texts: Seq<String>) -> Seq<Seq<char>> {
    texts.map_values(|t: String| t@)
}

/// The overlays of a message: for each placement that has one, the path of its
/// image with the user's marks. No placement occurs twice.
pub struct OverlayMap {
    entries: Vec<(String, String)>,
}

impl View for OverlayMap {
    type V = Seq<(Seq<char>, Seq<char>)>;

    closed spec fn view(&self) -> Seq<(Seq<char>, Seq<char>)> {
        pairs_view(self.entries@)
    }
}

impl OverlayMap {
    /// The overlays `overlays`, pairs of a placement and a path. Of two pairs
    /// with one placement the later counts.
    pub fn new(overlays: &Vec<(String, String)>) -> (m: OverlayMap)
        ensures
            m@ == latest(pairs_view(overlays@)),
    {
        let ghost all = pairs_view(overlays@);
        let mut m = OverlayMap { entries: Vec::new() };
        let mut i: usize = overlays.len();
        assert(all.skip(i as int) =~= Seq::empty());
        assert(m@ =~= Seq::empty());
        while i > 0
            invariant
                i <= overlays@.len(),
                all == pairs_view(overlays@),
                m@ == latest(all.skip(i as int)),
            decreases i,
        {
            i = i - 1;
            assert(all.skip(i as int).drop_first() =~= all.skip(i + 1));
            if !m.has(&overlays[i].0) {
                let ghost before = m.entries@;
                m.entries.push((overlays[i].0.clone(), overlays[i].1.clone()));
                assert(m@ =~= pairs_view(before).push(all[i as int]));
            }
        }
        assert(all.skip(0) =~= all);
        m
    }

    /// Whether `key` has an overlay.
    fn has(&self, key: &String) -> (b: bool)
        ensures
            b == has_key(self@, key@),
    {
        let mut i: usize = 0;
        while i < self.entries.len()
            invariant
                i <= self.entries@.len(),
                forall|j: int| 0 <= j < i ==> (#[trigger] self@[j]).0 != key@,
            decreases self.entries@.len() - i,
        {
            if self.entries[i].0 == *key {
                assert(self@[i as int].0 == key@);
                return true;
            }
            i = i + 1;
        }
        false
    }

    /// The overlay of `key`.
    pub fn get(&self, key: &str) -> (r: Option<String>)
        ensures
            (match r {
                Some(path) => Some(path@),
                None => None,
            }) == last_value(self@, key@),
    {
        let wanted = key.to_owned();
        let mut i: usize = self.entries.len();
        assert(self@.take(i as int) =~= self@);
        while i > 0
            invariant
                i <= self.entries@.len(),
                wanted@ == key@,
                last_value(self@, key@) == last_value(self@.take(i as int), key@),
            decreases i,
        {
            assert(self@.take(i as int).drop_last() =~= self@.take(i - 1));
            i = i - 1;
            if self.entries[i].0 == wanted {
                return Some(self.entries[i].1.clone());
            }
        }
        None
    }

    /// The paths of all overlays.
    pub fn paths(&self) -> (r: Vec<String>)
        ensures
            texts_view(r@) == self@.map_values(|e: (Seq<char>, Seq<char>)| e.1),
    {
        let mut out: Vec<String> = Vec::new();
        let mut i: usize = 0;
        while i < self.entries.len()
            invariant
                i <= self.entries@.len(),
                out@.len() == i,
                forall|j: int| 0 <= j < i ==> (#[trigger] out@[j])@ == self@[j].1,
            decreases self.entries@.len() - i,
        {
            out.push(self.entries[i].1.clone());
            i = i + 1;
        }
        assert(texts_view(out@) =~= self@.map_values(|e: (Seq<char>, Seq<char>)| e.1));
        out
    }
}

/// The index of the first of `placements` with the id `id`.
fn find_placement<P>(placements: &Vec<Placement<P>>, id: &String) -> (r: Option<usize>)
    ensures
        r is Some <==> first_index(placement_ids(placements@), id@, 0) is Some,
        r matches Some(i) ==> i < placements@.len() && first_index(
            placement_ids(placements@),
            id@,
            0,
        ) == Some(i as int),
{
    let ghost ids = placement_ids(placements@);
    let mut i: usize = 0;
    while i < placements.len()
        invariant
            i <= placements@.len(),
            ids == placement_ids(placements@),
            first_index(ids, id@, 0) == first_index(ids, id@, i as int),
        decreases placements@.len() - i,
    {
        if placements[i].id == *id {
            return Some(i);
        }
        i = i + 1;
    }
    None
}

/// The index of the first of `assets` with the id `id`.
fn find_asset<A>(assets: &Vec<Asset<A>>, id: &String) -> (r: Option<usize>)
    ensures
        r is Some <==> first_index(asset_ids(assets@), id@, 0) is Some,
        r matches Some(i) ==> i < assets@.len() && first_index(asset_ids(assets@), id@, 0) == Some(
            i as int,
        ),
{
    let ghost ids = asset_ids(assets@);
    let mut i: usize = 0;
    while i < assets.len()
        invariant
            i <= assets@.len(),
            ids == asset_ids(assets@),
            first_index(ids, id@, 0) == first_index(ids, id@, i as int),
        decreases assets@.len() - i,
    {
        if assets[i].id == *id {
            return Some(i);
        }
        i = i + 1;
    }
    None
}

/// Where the placement `id` and its asset stand in `doc`.
fn locate<A, P>(doc: &BoardDoc<A, P>, id: &String) -> (r: Option<(usize, usize)>)
    ensures
        (match r {
            Some((p, a)) => Some((p as int, a as int)),
            None => None,
        }) == placed_asset(*doc, id@),
        r matches Some((p, a)) ==> p < doc.placements@.len() && a < doc.assets@.len(),
{
    match find_placement(&doc.placements, id) {
        None => None,
        Some(p) => match find_asset(&doc.assets, &doc.placements[p].asset_id) {
            None => None,
            Some(a) => Some((p, a)),
        },
    }
}

/// The images that `sources`, ids of placements, refer to on the board. There
/// is no board where `doc` is missing.
pub fn resolve_refs<A, P>(
    doc: Option<&BoardDoc<A, P>>,
    sources: &Vec<String>,
    overlays: &OverlayMap,
) -> (r: Result<Vec<ResolvedRef>, String>)
    ensures
        r is Ok <==> doc is Some,
        r matches Ok(refs) ==> refs_view(refs@) == resolved_all(*doc->0, overlays@, sources@),
        r matches Err(e) ==> e@ == "unknown board"@,
{
    let doc = match doc {
        Some(doc) => doc,
        None => {
            return Err("unknown board".to_owned());
        },
    };
    let mut refs: Vec<ResolvedRef> = Vec::new();
    let mut i: usize = 0;
    assert(refs_view(refs@) =~= Seq::empty());
    while i < sources.len()
        invariant
            i <= sources@.len(),
            refs_view(refs@) == resolved_all(*doc, overlays@, sources@.take(i as int)),
        decreases sources@.len() - i,
    {
        assert(sources@.take(i + 1).drop_last() =~= sources@.take(i as int));
        if let Some((_p, a)) = locate(doc, &sources[i]) {
            let ghost before = refs@;
            let found = ResolvedRef {
                clean_rel: doc.assets[a].path.clone(),
                overlay_rel: overlays.get(sources[i].as_str()),
            };
            refs.push(found);
            assert(refs_view(refs@) =~= refs_view(before).push(found@));
        }
        i = i + 1;
    }
    assert(sources@.take(i as int) =~= sources@);
    Ok(refs)
}

/// Where the image that a message derives from stands in `doc`: the placement
/// that its first source names, and that placement's asset.
pub fn source_pair<A, P>(doc: &BoardDoc<A, P>, sources: &Vec<String>) -> (r: Option<(usize, usize)>)
    ensures
        (match r {
            Some((p, a)) => Some((p as int, a as int)),
            None => None,
        }) == (if sources@.len() == 0 {
            None
        } else {
            placed_asset(*doc, sources@[0]@)
        }),
        r matches Some((p, a)) ==> p < doc.placements@.len() && a < doc.assets@.len(),
{
    if sources.len() == 0 {
        None
    } else {
        locate(doc, &sources[0])
    }
}

/// The files that a request sends for `refs`, relative to the folder of the
/// board.
pub fn image_input_paths(refs: &Vec<ResolvedRef>) -> (r: Vec<String>)
    ensures
        texts_view(r@) == input_paths(refs_view(refs@)),
{
    let ghost all = refs_view(refs@);
    let mut out: Vec<String> = Vec::new();
    let mut i: usize = 0;
    assert(texts_view(out@) =~= Seq::empty());
    while i < refs.len()
        invariant
            i <= refs@.len(),
            all == refs_view(refs@),
            texts_view(out@) == input_paths(all.take(i as int)),
        decreases refs@.len() - i,
    {
        assert(all.take(i + 1).drop_last() =~= all.take(i as int));
        assert(all.take(i + 1).last() == refs@[i as int]@);
        let ghost before = out@;
        out.push(refs[i].clean_rel.clone());
        assert(texts_view(out@) =~= texts_view(before).push(refs@[i as int].clean_rel@));
        if let Some(path) = &refs[i].overlay_rel {
            let ghost before = out@;
            out.push(path.clone());
            assert(texts_view(out@) =~= texts_view(before).push(path@));
        }
        i = i + 1;
    }
    assert(all.take(i as int) =~= all);
    out
}

/// Puts a generated image on the board: its asset, unless an asset with its id
/// is there already, and its placement.
pub fn place_generated<A, P>(
    doc: &mut BoardDoc<A, P>,
    asset: Asset<A>,
    placement: Placement<P>,
)
    ensures
        is_placed(*old(doc), *final(doc), asset, placement),
{
    proof {
        first_index_is_least(asset_ids(doc.assets@), asset.id@, 0);
    }
    if find_asset(&doc.assets, &asset.id).is_none() {
        doc.assets.push(asset);
    }
    doc.placements.push(placement);
}

/// The extension under which the image `bytes` is written for the board; the
/// board must be open.
pub fn place_image(board_open: bool, bytes: &[u8]) -> (r: Result<&'static str, String>)
    ensures
        board_open ==> (r matches Ok(ext) && ext@ == codec::extension_of(
            codec::signature_kind(bytes@),
        )),
        !board_open ==> (r matches Err(e) && e@ == "unknown board"@),
{
    if board_open {
        Ok(codec::image_ext(bytes))
    } else {
        Err("unknown board".to_owned())
    }
}

/// The asset of a generated image, which was written with the outcome
/// `written`.
pub fn image_written<A>(written: Result<Asset<A>, String>) -> (r: Result<Asset<A>, String>)
    ensures
        match written {
            Ok(asset) => r == Ok::<Asset<A>, String>(asset),
            Err(why) => r matches Err(e) && e@ == "write generated image: "@ + why@,
        },
{
    match written {
        Ok(asset) => Ok(asset),
        Err(why) => {
            let mut message = "write generated image: ".to_owned();
            message.append(why.as_str());
            Err(message)
        },
    }
}

/// The generated image as it stands on the board: its asset and its placement.
/// The board was saved with the outcome `saved`; there is none where the board
/// is not open any more.
pub fn board_saved<A, P>(
    asset: Asset<A>,
    saved: Option<Result<Placement<P>, String>>,
) -> (r: Result<(Asset<A>, Placement<P>), String>)
    ensures
        match saved {
            Some(Ok(placement)) => r == Ok::<(Asset<A>, Placement<P>), String>((asset, placement)),
            Some(Err(why)) => r matches Err(e) && e@ == "save board after generation: "@ + why@,
            None => r matches Err(e) && e@ == "unknown board"@,
        },
{
    match saved {
        Some(Ok(placement)) => Ok((asset, placement)),
        Some(Err(why)) => {
            let mut message = "save board after generation: ".to_owned();
            message.append(why.as_str());
            Err(message)
        },
        None => Err("unknown board".to_owned()),
    }
}

/// `first_index` finds the least index from `from` on, and finds none only
/// where there is none.
pub proof fn first_index_is_least(ids: Seq<Seq<char>>, id: Seq<char>, from: int)
    requires
        0 <= from,
    ensures
        first_index(ids, id, from) matches Some(i) ==> from <= i < ids.len() && ids[i] == id,
        first_index(ids, id, from) matches Some(i) ==> forall|j: int|
            from <= j < i ==> ids[j] != id,
        first_index(ids, id, from) is None ==> forall|j: int| from <= j < ids.len() ==> ids[j] != id,
    decreases ids.len() - from,
{
    if from < ids.len() && ids[from] != id {
        first_index_is_least(ids, id, from + 1);
    }
}

/// An index that was found is found again in a longer list.
proof fn first_index_survives(ids: Seq<Seq<char>>, more: Seq<Seq<char>>, id: Seq<char>, from: int)
    requires
        0 <= from,
        first_index(ids, id, from) is Some,
    ensures
        first_index(ids + more, id, from) == first_index(ids, id, from),
    decreases ids.len() - from,
{
    if ids[from] != id {
        first_index_survives(ids, more, id, from + 1);
    }
}

/// Placing an image leaves alone what the other placements refer to.
pub proof fn placing_keeps_other_placements<A, P>(
    before: BoardDoc<A, P>,
    after: BoardDoc<A, P>,
    asset: Asset<A>,
    placement: Placement<P>,
    id: Seq<char>,
)
    requires
        is_placed(before, after, asset, placement),
        placed_asset(before, id) is Some,
    ensures
        placed_asset(after, id) == placed_asset(before, id),
        forall|overlays: Seq<(Seq<char>, Seq<char>)>|
            #[trigger] resolved(after, overlays, id) == resolved(before, overlays, id),
{
    let pids = placement_ids(before.placements@);
    let aids = asset_ids(before.assets@);
    first_index_is_least(pids, id, 0);
    let p = first_index(pids, id, 0)->0;
    let aid = before.placements@[p].asset_id@;
    first_index_is_least(aids, aid, 0);
    first_index_survives(pids, seq![placement.id@], id, 0);
    assert(placement_ids(after.placements@) =~= pids + seq![placement.id@]);
    first_index_survives(aids, seq![asset.id@], aid, 0);
    if asset_ids(before.assets@).contains(asset.id@) {
        assert(after.assets@ =~= before.assets@);
    } else {
        assert(asset_ids(after.assets@) =~= aids + seq![asset.id@]);
    }
}

/// A placed image can be referred to at once: a new placement of its asset
/// leads to an asset with the asset's id, and to the asset itself where no
/// other had the id.
pub proof fn placed_image_can_be_referred_to<A, P>(
    before: BoardDoc<A, P>,
    after: BoardDoc<A, P>,
    asset: Asset<A>,
    placement: Placement<P>,
)
    requires
        is_placed(before, after, asset, placement),
        !placement_ids(before.placements@).contains(placement.id@),
        placement.asset_id@ == asset.id@,
    ensures
        placed_asset(after, placement.id@) matches Some((p, a)) && p == before.placements@.len()
            && 0 <= a < after.assets@.len() && after.assets@[a].id@ == asset.id@,
        !asset_ids(before.assets@).contains(asset.id@) ==> placed_asset(after, placement.id@)
            == Some((before.placements@.len() as int, before.assets@.len() as int)),
{
    let pids = placement_ids(after.placements@);
    let aids = asset_ids(after.assets@);
    first_index_is_least(pids, placement.id@, 0);
    first_index_is_least(aids, asset.id@, 0);
    let n = before.placements@.len() as int;
    assert(pids[n] == placement.id@);
    assert forall|j: int| 0 <= j < n implies pids[j] != placement.id@ by {
        assert(pids[j] == placement_ids(before.placements@)[j]);
    }
    let k = before.assets@.len() as int;
    if asset_ids(before.assets@).contains(asset.id@) {
        let j = choose|j: int|
            0 <= j < before.assets@.len() && asset_ids(before.assets@)[j] == asset.id@;
        assert(aids[j] == asset.id@);
    } else {
        assert(aids[k] == asset.id@);
        assert forall|j: int| 0 <= j < k implies aids[j] != asset.id@ by {
            assert(aids[j] == asset_ids(before.assets@)[j]);
        }
    }
}

/// Placing an image keeps the ids of the assets distinct.
pub proof fn placing_keeps_asset_ids_distinct<A, P>(
    before: BoardDoc<A, P>,
    after: BoardDoc<A, P>,
    asset: Asset<A>,
    placement: Placement<P>,
)
    requires
        is_placed(before, after, asset, placement),
        asset_ids(before.assets@).no_duplicates(),
    ensures
        asset_ids(after.assets@).no_duplicates(),
{
    let ids = asset_ids(before.assets@);
    if !ids.contains(asset.id@) {
        assert(asset_ids(after.assets@) =~= ids.push(asset.id@));
        assert forall|i: int, j: int|
            0 <= i < j < ids.len() + 1 implies ids.push(asset.id@)[i] != ids.push(asset.id@)[j] by {
            assert(ids.contains(ids[i]));
        }
    }
}

/// A key has a value exactly where one of the pairs has it.
proof fn last_value_of_key(pairs: Seq<(Seq<char>, Seq<char>)>, key: Seq<char>)
    ensures
        last_value(pairs, key) is Some <==> has_key(pairs, key),
    decreases pairs.len(),
{
    if pairs.len() > 0 {
        let front = pairs.drop_last();
        last_value_of_key(front, key);
        if has_key(front, key) {
            let i = choose|i: int| 0 <= i < front.len() && (#[trigger] front[i]).0 == key;
            assert(pairs[i].0 == key);
        }
        if has_key(pairs, key) && pairs.last().0 != key {
            let i = choose|i: int| 0 <= i < pairs.len() && (#[trigger] pairs[i]).0 == key;
            assert(front[i].0 == key);
        }
        assert(pairs.last() == pairs[pairs.len() - 1]);
    }
}

/// A value behind the first pair counts more than the first pair.
proof fn last_value_from_front(pairs: Seq<(Seq<char>, Seq<char>)>, key: Seq<char>)
    requires
        pairs.len() > 0,
    ensures
        last_value(pairs, key) == (match last_value(pairs.drop_first(), key) {
            Some(v) => Some(v),
            None => if pairs[0].0 == key {
                Some(pairs[0].1)
            } else {
                None
            },
        }),
    decreases pairs.len(),
{
    let tail = pairs.drop_first();
    if pairs.len() == 1 {
        assert(last_value(pairs.drop_last(), key) is None);
    } else {
        last_value_from_front(pairs.drop_last(), key);
        assert(pairs.drop_last().drop_first() =~= tail.drop_last());
        assert(tail.last() == pairs.last());
    }
}

/// Of the overlays that a message gives a placement, the last one counts; none
/// is made up, and none is kept twice.
pub proof fn last_overlay_counts(pairs: Seq<(Seq<char>, Seq<char>)>)
    ensures
        forall|key: Seq<char>| #[trigger]
            last_value(latest(pairs), key) == last_value(pairs, key),
        forall|i: int, j: int|
            0 <= i < j < latest(pairs).len() ==> (#[trigger] latest(pairs)[i]).0
                != (#[trigger] latest(pairs)[j]).0,
    decreases pairs.len(),
{
    if pairs.len() > 0 {
        let rest = latest(pairs.drop_first());
        last_overlay_counts(pairs.drop_first());
        assert forall|key: Seq<char>| #[trigger]
            last_value(latest(pairs), key) == last_value(pairs, key) by {
            last_value_from_front(pairs, key);
            last_value_of_key(rest, pairs[0].0);
            assert(last_value(rest, key) == last_value(pairs.drop_first(), key));
            if !has_key(rest, pairs[0].0) {
                assert(latest(pairs) == rest.push(pairs[0]));
                assert(latest(pairs).drop_last() =~= rest);
            }
        }
        if !has_key(rest, pairs[0].0) {
            assert forall|i: int, j: int| 0 <= i < j < latest(pairs).len() implies (
            #[trigger] latest(pairs)[i]).0 != (#[trigger] latest(pairs)[j]).0 by {
                assert(latest(pairs)[i] == rest[i]);
            }
        }
    }
}

/// Every image that a message refers to is among the files of its request, and
/// the number of the files is that of the images and of their overlays.
pub proof fn every_reference_is_sent(refs: Seq<RefView>)
    ensures
        input_paths(refs).len() == refs.len() + refs.filter(
            |r: RefView| r.overlay_rel is Some,
        ).len(),
        forall|i: int|
            0 <= i < refs.len() ==> input_paths(refs).contains((#[trigger] refs[i]).clean_rel),
    decreases refs.len(),
{
    reveal(Seq::filter);
    if refs.len() > 0 {
        let front = refs.drop_last();
        every_reference_is_sent(front);
        let before = input_paths(front);
        let all = input_paths(refs);
        assert forall|i: int| 0 <= i < refs.len() implies all.contains(
            (#[trigger] refs[i]).clean_rel,
        ) by {
            if i < front.len() {
                assert(before.contains(front[i].clean_rel));
                let k = choose|k: int| 0 <= k < before.len() && before[k] == front[i].clean_rel;
                assert(all[k] == refs[i].clean_rel);
            } else {
                assert(all[before.len() as int] == refs[i].clean_rel);
            }
        }
    }
}

/// A placement is found by its id, the first one that has it, and leads to the
/// first asset with the id that it names. Nothing is found only where no
/// placement has the id, or no asset that of the first one.
pub proof fn placements_lead_to_their_assets<A, P>(doc: BoardDoc<A, P>, id: Seq<char>)
    ensures
        placed_asset(doc, id) matches Some((p, a)) ==> {
            &&& 0 <= p < doc.placements@.len() && doc.placements@[p].id@ == id
            &&& 0 <= a < doc.assets@.len() && doc.assets@[a].id@ == doc.placements@[p].asset_id@
            &&& forall|k: int| 0 <= k < p ==> (#[trigger] doc.placements@[k]).id@ != id
            &&& forall|k: int|
                0 <= k < a ==> (#[trigger] doc.assets@[k]).id@ != doc.placements@[p].asset_id@
        },
        placed_asset(doc, id) is None ==> forall|p: int, a: int|
            0 <= p < doc.placements@.len() && 0 <= a < doc.assets@.len() && (
            #[trigger] doc.placements@[p]).id@ == id && (forall|k: int|
                0 <= k < p ==> (#[trigger] doc.placements@[k]).id@ != id) ==> (
            #[trigger] doc.assets@[a]).id@ != doc.placements@[p].asset_id@,
{
    let pids = placement_ids(doc.placements@);
    let aids = asset_ids(doc.assets@);
    first_index_is_least(pids, id, 0);
    match first_index(pids, id, 0) {
        Some(p) => {
            let aid = doc.placements@[p].asset_id@;
            first_index_is_least(aids, aid, 0);
            assert forall|k: int| 0 <= k < p implies (#[trigger] doc.placements@[k]).id@ != id by {
                assert(pids[k] != id);
            }
            if placed_asset(doc, id) is None {
                assert forall|q: int, a: int|
                    0 <= q < doc.placements@.len() && 0 <= a < doc.assets@.len() && (
                    #[trigger] doc.placements@[q]).id@ == id && (forall|k: int|
                        0 <= k < q ==> (#[trigger] doc.placements@[k]).id@ != id) implies (
                #[trigger] doc.assets@[a]).id@ != doc.placements@[q].asset_id@ by {
                    assert(doc.placements@[p].id@ == id);
                    assert(pids[q] == id);
                    assert(q == p);
                    assert(aids[a] != aid);
                }
            } else {
                let a = first_index(aids, aid, 0)->0;
                assert forall|k: int| 0 <= k < a implies (#[trigger] doc.assets@[k]).id@ != aid by {
                    assert(aids[k] != aid);
                }
            }
        },
        None => {
            assert forall|q: int| 0 <= q < doc.placements@.len() implies (
            #[trigger] doc.placements@[q]).id@ != id by {
                assert(pids[q] != id);
            }
        },
    }
}

/// The images of a message come in the order of its sources, one for each source
/// that leads to an asset: the path of the asset, and the overlay that was given
/// last for the source.
pub proof fn references_follow_the_sources<A, P>(
    doc: BoardDoc<A, P>,
    overlays: Seq<(Seq<char>, Seq<char>)>,
    sources: Seq<String>,
    more: Seq<String>,
    source: String,
)
    ensures
        resolved_all(doc, overlays, Seq::empty()) == Seq::<RefView>::empty(),
        placed_asset(doc, source@) is None ==> resolved_all(doc, overlays, seq![source]) == Seq::<
            RefView,
        >::empty(),
        placed_asset(doc, source@) matches Some((p, a)) ==> ({
            let found = resolved_all(doc, overlays, seq![source]);
            &&& found.len() == 1
            &&& found[0].clean_rel == doc.assets@[a].path@
            &&& found[0].overlay_rel == last_value(overlays, source@)
        }),
        resolved_all(doc, overlays, sources + more) == resolved_all(doc, overlays, sources)
            + resolved_all(doc, overlays, more),
    decreases more.len(),
{
    assert(seq![source].drop_last() =~= Seq::<String>::empty());
    assert(resolved_all(doc, overlays, seq![source].drop_last()) =~= Seq::empty());
    if more.len() == 0 {
        assert(sources + more =~= sources);
        assert(resolved_all(doc, overlays, sources) + resolved_all(doc, overlays, more)
            =~= resolved_all(doc, overlays, sources));
    } else {
        assert((sources + more).drop_last() =~= sources + more.drop_last());
        references_follow_the_sources(doc, overlays, sources, more.drop_last(), source);
        assert(resolved_all(doc, overlays, sources + more) =~= resolved_all(doc, overlays, sources)
            + resolved_all(doc, overlays, more));
    }
}

/// The overlay of a placement is the one that was given last; those of other
/// placements do not matter.
pub proof fn overlays_belong_to_their_placement(
    pairs: Seq<(Seq<char>, Seq<char>)>,
    key: Seq<char>,
    path: Seq<char>,
    other: Seq<char>,
)
    ensures
        last_value(pairs.push((key, path)), key) == Some(path),
        other != key ==> last_value(pairs.push((key, path)), other) == last_value(pairs, other),
        last_value(Seq::empty(), key) is None,
{
    assert(pairs.push((key, path)).drop_last() =~= pairs);
}

/// The files of a request come in the order of its images, for each one the
/// image and then its overlay, if it has one.
pub proof fn files_follow_the_references(refs: Seq<RefView>, more: Seq<RefView>, one: RefView)
    ensures
        one.overlay_rel is None ==> input_paths(seq![one]) == seq![one.clean_rel],
        one.overlay_rel matches Some(overlay) ==> input_paths(seq![one]) == seq![
            one.clean_rel,
            overlay,
        ],
        input_paths(refs + more) == input_paths(refs) + input_paths(more),
    decreases more.len(),
{
    assert(seq![one].drop_last() =~= Seq::<RefView>::empty());
    assert(input_paths(seq![one].drop_last()) =~= Seq::empty());
    match one.overlay_rel {
        Some(overlay) => {
            assert(input_paths(seq![one]) =~= seq![one.clean_rel, overlay]);
        },
        None => {
            assert(input_paths(seq![one]) =~= seq![one.clean_rel]);
        },
    }
    if more.len() == 0 {
        assert(refs + more =~= refs);
        assert(input_paths(refs) + input_paths(more) =~= input_paths(refs));
    } else {
        assert((refs + more).drop_last() =~= refs + more.drop_last());
        files_follow_the_references(refs, more.drop_last(), one);
        assert(input_paths(refs + more) =~= input_paths(refs) + input_paths(more));
    }
}

}
