//! Unpacking the stored archive: from the bytes of a compressed tarball to
//! the entries that are to be written below the target directory.

use std::io::Read;
use vstd::prelude::*;
use vstd::slice::slice_to_vec;
use crate::data_retrieve::outcome::PipelineError;

verus! {

/// One entry of an archive, as it stands there. An entry is a directory or
/// a file: an entry of any other kind is taken as a file that holds the
/// bytes that the archive stores for it.
#[derive(Clone, Debug, PartialEq, Eq)]
pub struct ArchiveEntry {
    /// The path that the archive gives the entry, `/`-separated.
    pub path: Vec<u8>,
    /// Whether the entry is a directory.
    pub is_dir: bool,
    /// The bytes that the archive stores for the entry.
    pub contents: Vec<u8>,
}

/// An archive entry as plain values.
pub ghost struct EntryView {
    pub path: Seq<u8>,
    pub is_dir: bool,
    pub contents: Seq<u8>,
}

impl View for ArchiveEntry {
    type V = EntryView;

    open spec fn view(&self) -> EntryView {
        EntryView { path: self.path@, is_dir: self.is_dir, contents: self.contents@ }
    }
}

/// One entry that is to be written below the target directory.
#[derive(Clone, Debug, PartialEq, Eq)]
pub struct ExtractedEntry {
    /// Where the entry goes, as the names that lead to it from the target
    /// directory. There is at least one, and each is an ordinary name.
    pub components: Vec<Vec<u8>>,
    /// Whether the entry is a directory.
    pub is_dir: bool,
    /// The bytes of the file; those of the archive entry, unchanged.
    pub contents: Vec<u8>,
}

/// An entry to be written, as plain values.
pub ghost struct ExtractedView {
    pub components: Seq<Seq<u8>>,
    pub is_dir: bool,
    pub contents: Seq<u8>,
}

impl View for ExtractedEntry {
    type V = ExtractedView;

    open spec fn view(&self) -> ExtractedView {
        ExtractedView {
            components: names_view(self.components@),
            is_dir: self.is_dir,
            contents: self.contents@,
        }
    }
}

/// The bytes of each name of a list.
pub open spec fn names_view(names: Seq<Vec<u8>>) -> Seq<Seq<u8>> {
    names.map_values(|name: Vec<u8>| name@)
}

/// The plain values of each archive entry of a list.
pub open spec fn entries_view(entries: Seq<ArchiveEntry>) -> Seq<EntryView> {
    entries.map_values(|entry: ArchiveEntry| entry@)
}

/// The plain values of each entry of a list of entries to be written.
pub open spec fn extracted_view(entries: Seq<ExtractedEntry>) -> Seq<ExtractedView> {
    entries.map_values(|entry: ExtractedEntry| entry@)
}

/// The byte that separates the names of a path.
pub const SEPARATOR: u8 = 0x2f;

/// The byte of which the names `.` and `..` are made.
pub const DOT: u8 = 0x2e;

/// The pieces between the separators of `path`, empty ones included: a
/// path with `n` separators has `n + 1` pieces.
pub open spec fn split_components(path: Seq<u8>) -> Seq<Seq<u8>>
    decreases path.len(),
{
    if path.len() == 0 {
        seq![Seq::<u8>::empty()]
    } else {
        let before = split_components(path.drop_last());
        if path.last() == SEPARATOR {
            before.push(Seq::<u8>::empty())
        } else {
            before.drop_last().push(before.last().push(path.last()))
        }
    }
}

/// Whether a piece of a path names the directory it stands in: the empty
/// piece and `.`.
pub open spec fn stays(piece: Seq<u8>) -> bool {
    piece.len() == 0 || piece =~= seq![DOT]
}

/// Whether a piece of a path names the parent directory: `..`.
pub open spec fn climbs(piece: Seq<u8>) -> bool {
    piece =~= seq![DOT, DOT]
}

/// Whether a piece is an ordinary name: not empty, neither `.` nor `..`,
/// and free of separators.
pub open spec fn ordinary(piece: Seq<u8>) -> bool {
    &&& !stays(piece)
    &&& !climbs(piece)
    &&& forall|i: int| 0 <= i < piece.len() ==> #[trigger] piece[i] != SEPARATOR
}

/// Whether an entry that is to be written lands inside the target
/// directory: its place is reached from there by one or more ordinary names.
pub open spec fn lands_inside(entry: ExtractedView) -> bool {
    &&& entry.components.len() > 0
    &&& forall|k: int|
        0 <= k < entry.components.len() ==> ordinary(#[trigger] entry.components[k])
}

/// Where a walk along `pieces` ends that starts in the target directory,
/// as the names that lead there from the target directory. `None` where
/// the walk leaves the target directory at some step, even if a later step
/// would lead back into it.
pub open spec fn resolve(pieces: Seq<Seq<u8>>) -> Option<Seq<Seq<u8>>>
    decreases pieces.len(),
{
    if pieces.len() == 0 {
        Some(Seq::<Seq<u8>>::empty())
    } else {
        match resolve(pieces.drop_last()) {
            None => None,
            Some(names) => {
                let piece = pieces.last();
                if stays(piece) {
                    Some(names)
                } else if climbs(piece) {
                    if names.len() == 0 {
                        None
                    } else {
                        Some(names.drop_last())
                    }
                } else {
                    Some(names.push(piece))
                }
            },
        }
    }
}

/// Where the path of an archive entry leads, relative to the target
/// directory; `None` where it leads out of it. Leading separators count for
/// nothing, so a path that the archive gives as absolute is taken relative
/// to the target directory.
pub open spec fn resolved_path(path: Seq<u8>) -> Option<Seq<Seq<u8>>> {
    resolve(split_components(path))
}

/// Cuts a path into the pieces between its separators.
pub fn split_path(path: &[u8]) -> (pieces: Vec<Vec<u8>>)
    ensures
        names_view(pieces@) == split_components(path@),
{
    let mut pieces: Vec<Vec<u8>> = Vec::new();
    let mut current: Vec<u8> = Vec::new();
    let mut i: usize = 0;
    while i < path.len()
        invariant
            i <= path.len(),
            names_view(pieces@).push(current@) == split_components(path@.take(i as int)),
        decreases path.len() - i,
    {
        let byte: u8 = path[i];
        proof {
            assert(path@.take(i + 1).drop_last() =~= path@.take(i as int));
            assert(path@.take(i + 1).last() == byte);
            assert(names_view(pieces@).push(current@).drop_last() =~= names_view(pieces@));
        }
        if byte == SEPARATOR {
            let ghost before = pieces@;
            pieces.push(current);
            current = Vec::new();
            assert(names_view(pieces@) =~= names_view(before).push(pieces@.last()@));
        } else {
            current.push(byte);
        }
        i += 1;
    }
    proof {
        assert(path@.take(i as int) =~= path@);
    }
    let ghost before = pieces@;
    pieces.push(current);
    assert(names_view(pieces@) =~= names_view(before).push(pieces@.last()@));
    pieces
}

/// A walk that has left the target directory stays outside, whatever
/// follows.
pub proof fn lemma_resolve_stays_outside(pieces: Seq<Seq<u8>>, shorter: int)
    requires
        0 <= shorter <= pieces.len(),
        resolve(pieces.take(shorter)) is None,
    ensures
        resolve(pieces) is None,
    decreases pieces.len() - shorter,
{
    if shorter == pieces.len() {
        assert(pieces.take(shorter) =~= pieces);
    } else {
        assert(pieces.drop_last().take(shorter) =~= pieces.take(shorter));
        lemma_resolve_stays_outside(pieces.drop_last(), shorter);
    }
}

/// Whether a piece is `.`.
fn is_dot(piece: &Vec<u8>) -> (yes: bool)
    ensures
        yes == (piece@ =~= seq![DOT]),
{
    piece.len() == 1 && piece[0] == DOT
}

/// Whether a piece is `..`.
fn is_dot_dot(piece: &Vec<u8>) -> (yes: bool)
    ensures
        yes == climbs(piece@),
{
    piece.len() == 2 && piece[0] == DOT && piece[1] == DOT
}

/// Walks along the pieces of a path from the target directory, and tells
/// where the walk ends or that it leaves the target directory.
pub fn resolve_components(pieces: &Vec<Vec<u8>>) -> (target: Option<Vec<Vec<u8>>>)
    ensures
        match target {
            None => resolve(names_view(pieces@)) is None,
            Some(names) => resolve(names_view(pieces@)) == Some(names_view(names@)),
        },
{
    let ghost all = names_view(pieces@);
    let mut names: Vec<Vec<u8>> = Vec::new();
    let mut i: usize = 0;
    proof {
        assert(all.take(0) =~= Seq::<Seq<u8>>::empty());
    }
    while i < pieces.len()
        invariant
            i <= pieces.len(),
            all == names_view(pieces@),
            resolve(all.take(i as int)) == Some(names_view(names@)),
        decreases pieces.len() - i,
    {
        let ghost before = names@;
        let piece: &Vec<u8> = &pieces[i];
        proof {
            assert(all.take(i + 1).drop_last() =~= all.take(i as int));
            assert(all.take(i + 1).last() == piece@);
        }
        if piece.len() == 0 || is_dot(piece) {
        } else if is_dot_dot(piece) {
            if names.len() == 0 {
                proof {
                    lemma_resolve_stays_outside(all, i + 1);
                }
                return None;
            }
            names.pop();
            assert(names_view(names@) =~= names_view(before).drop_last());
        } else {
            names.push(slice_to_vec(piece.as_slice()));
            assert(names_view(names@) =~= names_view(before).push(piece@));
        }
        i += 1;
    }
    proof {
        assert(all.take(i as int) =~= all);
    }
    Some(names)
}

/// Tells where the path of an archive entry leads below the target
/// directory, or that it leads out of it.
pub fn resolve_path(path: &[u8]) -> (target: Option<Vec<Vec<u8>>>)
    ensures
        match target {
            None => resolved_path(path@) is None,
            Some(names) => resolved_path(path@) == Some(names_view(names@)),
        },
{
    let pieces = split_path(path);
    resolve_components(&pieces)
}

/// What is written for an archive entry whose path leads to `target`.
pub open spec fn extracted_as(entry: EntryView, target: Seq<Seq<u8>>) -> ExtractedView {
    ExtractedView { components: target, is_dir: entry.is_dir, contents: entry.contents }
}

/// What is to be written for the entries of an archive, in the order of the
/// archive: one entry for each archive entry, at the place where its path
/// leads, with its kind and its bytes. An archive entry whose path leads to
/// the target directory itself asks for nothing. If the path of any entry
/// leads out of the target directory, nothing at all is to be written, and
/// the archive is rejected.
pub open spec fn planned(entries: Seq<EntryView>) -> Result<Seq<ExtractedView>, PipelineError>
    decreases entries.len(),
{
    if entries.len() == 0 {
        Ok(Seq::<ExtractedView>::empty())
    } else {
        match planned(entries.drop_last()) {
            Err(error) => Err(error),
            Ok(plan) => match resolved_path(entries.last().path) {
                None => Err(PipelineError::PathTraversalError),
                Some(target) => if target.len() == 0 {
                    Ok(plan)
                } else {
                    Ok(plan.push(extracted_as(entries.last(), target)))
                },
            },
        }
    }
}

/// A list of entries that fails at some point fails as a whole, with the
/// same error.
pub proof fn lemma_planned_stays_failed(entries: Seq<EntryView>, shorter: int)
    requires
        0 <= shorter <= entries.len(),
        planned(entries.take(shorter)) is Err,
    ensures
        planned(entries) == planned(entries.take(shorter)),
    decreases entries.len() - shorter,
{
    if shorter == entries.len() {
        assert(entries.take(shorter) =~= entries);
    } else {
        assert(entries.drop_last().take(shorter) =~= entries.take(shorter));
        lemma_planned_stays_failed(entries.drop_last(), shorter);
    }
}

/// Decides what is to be written for the entries of an archive, and
/// rejects the archive if the path of any entry leads out of the target
/// directory.
pub fn plan_extraction(entries: Vec<ArchiveEntry>) -> (plan: Result<
    Vec<ExtractedEntry>,
    PipelineError,
>)
    ensures
        match plan {
            Ok(list) => planned(entries_view(entries@)) == Ok::<
                Seq<ExtractedView>,
                PipelineError,
            >(extracted_view(list@)),
            Err(error) => planned(entries_view(entries@)) == Err::<
                Seq<ExtractedView>,
                PipelineError,
            >(error),
        },
        plan matches Ok(list) ==> forall|j: int|
            0 <= j < list.len() ==> lands_inside(#[trigger] extracted_view(list@)[j]),
{
    let ghost all = entries_view(entries@);
    let mut list: Vec<ExtractedEntry> = Vec::new();
    proof {
        assert(all.take(0) =~= Seq::<EntryView>::empty());
        assert(extracted_view(list@) =~= Seq::<ExtractedView>::empty());
    }
    for entry in iter: entries
        invariant
            entries_view(iter.seq()) == all,
            planned(all.take(iter.index() as int)) == Ok::<Seq<ExtractedView>, PipelineError>(
                extracted_view(list@),
            ),
    {
        let ghost before = list@;
        let ghost at = iter.index() as int;
        proof {
            assert(all.take(at + 1).drop_last() =~= all.take(at));
            assert(all.take(at + 1).last() == entry@);
        }
        match resolve_path(entry.path.as_slice()) {
            None => {
                proof {
                    lemma_planned_stays_failed(all, at + 1);
                }
                return Err(PipelineError::PathTraversalError);
            },
            Some(components) => {
                if components.len() > 0 {
                    list.push(
                        ExtractedEntry {
                            components,
                            is_dir: entry.is_dir,
                            contents: entry.contents,
                        },
                    );
                    assert(extracted_view(list@) =~= extracted_view(before).push(
                        extracted_as(entry@, names_view(components@)),
                    ));
                }
            },
        }
    }
    proof {
        assert(all.take(all.len() as int) =~= all);
        law_targets_stay_inside(all);
        let plan = planned(all)->Ok_0;
        assert forall|j: int| 0 <= j < list.len() implies lands_inside(
            #[trigger] extracted_view(list@)[j],
        ) by {
            assert(lands_inside(plan[j]));
        }
    }
    Ok(list)
}

/// What decompressing a gzip stream with `flate2::read::GzDecoder` yields:
/// the bytes read from the decoder up to its end, or `None` where the
/// decoder reports an error.
pub uninterp spec fn gunzip_output(compressed: Seq<u8>) -> Option<Seq<u8>>;

/// What `tar::Archive::entries` yields for a tarball held in memory: of
/// each entry its path bytes, whether its header marks it as a directory,
/// and the bytes read from it; or `None` where reading any entry fails.
pub uninterp spec fn tar_entries(tarball: Seq<u8>) -> Option<Seq<EntryView>>;

/// The bytes of an optional vector.
pub open spec fn optional_bytes(bytes: Option<Vec<u8>>) -> Option<Seq<u8>> {
    match bytes {
        None => None,
        Some(found) => Some(found@),
    }
}

/// The plain values of an optional list of archive entries.
pub open spec fn optional_entries(entries: Option<Vec<ArchiveEntry>>) -> Option<Seq<EntryView>> {
    match entries {
        None => None,
        Some(found) => Some(entries_view(found@)),
    }
}

/// Decompresses a gzip stream held in memory: reads a
/// `flate2::read::GzDecoder` over the bytes to its end. Trusted: the
/// result is taken to be a function of the bytes alone, named
/// `gunzip_output`; nothing else is claimed of it.
#[verifier::external_body]
fn gunzip(compressed: &[u8]) -> (plain: Option<Vec<u8>>)
    ensures
        optional_bytes(plain) == gunzip_output(compressed@),
{
    let mut plain = Vec::new();
    match flate2::read::GzDecoder::new(compressed).read_to_end(&mut plain) {
        Ok(_) => Some(plain),
        Err(_) => None,
    }
}

/// Lists the entries of a tarball held in memory: iterates over
/// `tar::Archive::entries` and takes of each entry its `path_bytes`,
/// whether its header's type is a directory, and the bytes read from it.
/// Trusted: the result is taken to be a function of the bytes alone, named
/// `tar_entries`; nothing else is claimed of it.
#[verifier::external_body]
fn read_entries(tarball: &[u8]) -> (entries: Option<Vec<ArchiveEntry>>)
    ensures
        optional_entries(entries) == tar_entries(tarball@),
{
    let mut archive = tar::Archive::new(tarball);
    let mut entries = Vec::new();
    for item in archive.entries().ok()? {
        let mut item = item.ok()?;
        let path = item.path_bytes().into_owned();
        let is_dir = item.header().entry_type().is_dir();
        let mut contents = Vec::new();
        item.read_to_end(&mut contents).ok()?;
        entries.push(ArchiveEntry { path, is_dir, contents });
    }
    Some(entries)
}

/// What unpacking the bytes of a stored archive gives: a stream that does
/// not decompress, and a tarball that cannot be read, are a corrupt archive;
/// the entries of a tarball that can be read are planned.
pub open spec fn unpacked(archive: Seq<u8>) -> Result<Seq<ExtractedView>, PipelineError> {
    match gunzip_output(archive) {
        None => Err(PipelineError::CorruptArchiveError),
        Some(tarball) => match tar_entries(tarball) {
            None => Err(PipelineError::CorruptArchiveError),
            Some(entries) => planned(entries),
        },
    }
}

/// Unpacks the bytes of a stored archive into the entries that are to be
/// written below the target directory. Nothing is written here: the caller
/// writes the entries, in this order, once the whole archive is accepted.
pub fn decompress(archive: &[u8]) -> (plan: Result<Vec<ExtractedEntry>, PipelineError>)
    ensures
        match plan {
            Ok(list) => unpacked(archive@) == Ok::<Seq<ExtractedView>, PipelineError>(
                extracted_view(list@),
            ),
            Err(error) => unpacked(archive@) == Err::<Seq<ExtractedView>, PipelineError>(error),
        },
        plan matches Ok(list) ==> forall|j: int|
            0 <= j < list.len() ==> lands_inside(#[trigger] extracted_view(list@)[j]),
{
    match gunzip(archive) {
        None => Err(PipelineError::CorruptArchiveError),
        Some(tarball) => match read_entries(tarball.as_slice()) {
            None => Err(PipelineError::CorruptArchiveError),
            Some(entries) => plan_extraction(entries),
        },
    }
}

/// Whether no byte of a piece is the separator.
pub open spec fn free_of_separators(piece: Seq<u8>) -> bool {
    forall|i: int| 0 <= i < piece.len() ==> #[trigger] piece[i] != SEPARATOR
}

/// The pieces of a list put together again, with a separator between each
/// two of them.
pub open spec fn join_pieces(pieces: Seq<Seq<u8>>) -> Seq<u8>
    decreases pieces.len(),
{
    if pieces.len() == 0 {
        Seq::<u8>::empty()
    } else if pieces.len() == 1 {
        pieces[0]
    } else {
        join_pieces(pieces.drop_last()) + seq![SEPARATOR] + pieces.last()
    }
}

/// Splitting loses nothing. The pieces of a path, put together again with
/// separators between them, are the path.
pub proof fn law_split_joins_back(path: Seq<u8>)
    ensures
        join_pieces(split_components(path)) == path,
    decreases path.len(),
{
    lemma_split_free_of_separators(path);
    if path.len() == 0 {
    } else {
        let before = split_components(path.drop_last());
        law_split_joins_back(path.drop_last());
        lemma_split_free_of_separators(path.drop_last());
        if path.last() == SEPARATOR {
            let pieces = before.push(Seq::<u8>::empty());
            assert(pieces.drop_last() =~= before);
            assert(join_pieces(pieces) =~= path.drop_last() + seq![SEPARATOR]);
            assert(path.drop_last() + seq![SEPARATOR] =~= path);
        } else {
            let grown = before.last().push(path.last());
            let pieces = before.drop_last().push(grown);
            assert(pieces.drop_last() =~= before.drop_last());
            if before.len() == 1 {
                assert(join_pieces(before) == before[0]);
                assert(join_pieces(pieces) =~= path.drop_last().push(path.last()));
            } else {
                assert(join_pieces(before) == join_pieces(before.drop_last()) + seq![SEPARATOR]
                    + before.last());
                assert(join_pieces(pieces) =~= (join_pieces(before.drop_last()) + seq![
                    SEPARATOR,
                ] + before.last()).push(path.last()));
            }
            assert(path.drop_last().push(path.last()) =~= path);
        }
    }
}

/// The pieces of a path hold no separator.
pub proof fn lemma_split_free_of_separators(path: Seq<u8>)
    ensures
        split_components(path).len() >= 1,
        forall|k: int|
            0 <= k < split_components(path).len() ==> free_of_separators(
                #[trigger] split_components(path)[k],
            ),
    decreases path.len(),
{
    if path.len() > 0 {
        lemma_split_free_of_separators(path.drop_last());
    }
}

/// A walk that stays inside the target directory ends at a place that
/// ordinary names lead to.
pub proof fn lemma_resolve_gives_ordinary_names(pieces: Seq<Seq<u8>>)
    requires
        forall|k: int| 0 <= k < pieces.len() ==> free_of_separators(#[trigger] pieces[k]),
    ensures
        resolve(pieces) is Some ==> forall|k: int|
            0 <= k < resolve(pieces)->Some_0.len() ==> ordinary(
                #[trigger] resolve(pieces)->Some_0[k],
            ),
    decreases pieces.len(),
{
    if pieces.len() > 0 {
        lemma_resolve_gives_ordinary_names(pieces.drop_last());
        assert(free_of_separators(pieces.last()));
    }
}

/// Path-traversal rejection. An archive is accepted if and only if the path
/// of every entry stays inside the target directory; an archive that is
/// not accepted is rejected with `PathTraversalError`, and then nothing is
/// to be written for any of its entries.
pub proof fn law_traversal_rejected(entries: Seq<EntryView>)
    ensures
        planned(entries) is Ok <==> forall|i: int|
            0 <= i < entries.len() ==> resolved_path((#[trigger] entries[i]).path) is Some,
        planned(entries) is Err ==> planned(entries) == Err::<Seq<ExtractedView>, PipelineError>(
            PipelineError::PathTraversalError,
        ),
    decreases entries.len(),
{
    if entries.len() > 0 {
        law_traversal_rejected(entries.drop_last());
        if planned(entries) is Ok {
            assert forall|i: int| 0 <= i < entries.len() implies resolved_path(
                (#[trigger] entries[i]).path,
            ) is Some by {
                if i < entries.len() - 1 {
                    assert(entries.drop_last()[i] == entries[i]);
                }
            }
        }
        if forall|i: int|
            0 <= i < entries.len() ==> resolved_path((#[trigger] entries[i]).path) is Some {
            assert forall|i: int| 0 <= i < entries.drop_last().len() implies resolved_path(
                (#[trigger] entries.drop_last()[i]).path,
            ) is Some by {
                assert(entries.drop_last()[i] == entries[i]);
            }
            assert(resolved_path(entries.last().path) is Some);
        }
    }
}

/// Extraction completeness. Of an accepted archive, every entry whose path
/// leads below the target directory is written at the place where its path
/// leads, with its own kind and bytes.
pub proof fn law_every_entry_extracted(entries: Seq<EntryView>, i: int)
    requires
        planned(entries) is Ok,
        0 <= i < entries.len(),
    ensures
        resolved_path(entries[i].path) matches Some(target) && (target.len() > 0 ==> exists|j: int|
            0 <= j < planned(entries)->Ok_0.len() && #[trigger] planned(entries)->Ok_0[j]
                == extracted_as(entries[i], target)),
    decreases entries.len(),
{
    let plan = planned(entries)->Ok_0;
    let shorter = planned(entries.drop_last())->Ok_0;
    if i == entries.len() - 1 {
        let target = resolved_path(entries[i].path)->Some_0;
        if target.len() > 0 {
            assert(plan[plan.len() - 1] == extracted_as(entries[i], target));
        }
    } else {
        assert(entries.drop_last()[i] == entries[i]);
        law_every_entry_extracted(entries.drop_last(), i);
        let target = resolved_path(entries[i].path)->Some_0;
        if target.len() > 0 {
            let j = choose|j: int|
                0 <= j < shorter.len() && #[trigger] shorter[j] == extracted_as(entries[i], target);
            assert(plan[j] == shorter[j]);
        }
    }
}

/// Nothing beyond the archive. Of an accepted archive, whatever is written
/// is an entry of the archive, at the place where the path of that entry
/// leads; so no directory appears at the top of the target directory that
/// no entry of the archive names.
pub proof fn law_nothing_extra(entries: Seq<EntryView>, j: int)
    requires
        planned(entries) is Ok,
        0 <= j < planned(entries)->Ok_0.len(),
    ensures
        exists|i: int|
            0 <= i < entries.len() && resolved_path((#[trigger] entries[i]).path) == Some(
                planned(entries)->Ok_0[j].components,
            ) && planned(entries)->Ok_0[j] == extracted_as(
                entries[i],
                planned(entries)->Ok_0[j].components,
            ),
        planned(entries)->Ok_0[j].components.len() > 0,
    decreases entries.len(),
{
    let plan = planned(entries)->Ok_0;
    let shorter = planned(entries.drop_last())->Ok_0;
    if j < shorter.len() {
        assert(plan[j] == shorter[j]);
        law_nothing_extra(entries.drop_last(), j);
        let i = choose|i: int|
            0 <= i < entries.drop_last().len() && resolved_path(
                (#[trigger] entries.drop_last()[i]).path,
            ) == Some(shorter[j].components) && shorter[j] == extracted_as(
                entries.drop_last()[i],
                shorter[j].components,
            );
        assert(entries[i] == entries.drop_last()[i]);
    } else {
        let i = entries.len() - 1;
        assert(resolved_path(entries[i].path) == Some(plan[j].components));
    }
}

/// No escape. Of an accepted archive, every place that is written to is
/// reached from the target directory by ordinary names alone: none is
/// empty, `.` or `..`, and none holds a separator. So every entry lands
/// inside the target directory.
pub proof fn law_targets_stay_inside(entries: Seq<EntryView>)
    ensures
        planned(entries) matches Ok(plan) ==> forall|j: int|
            0 <= j < plan.len() ==> lands_inside(#[trigger] plan[j]),
{
    if planned(entries) is Ok {
        let plan = planned(entries)->Ok_0;
        assert forall|j: int| 0 <= j < plan.len() implies lands_inside(#[trigger] plan[j]) by {
            law_nothing_extra(entries, j);
            let target = plan[j].components;
            let i = choose|i: int|
                0 <= i < entries.len() && resolved_path((#[trigger] entries[i]).path) == Some(
                    target,
                );
            lemma_split_free_of_separators(entries[i].path);
            lemma_resolve_gives_ordinary_names(split_components(entries[i].path));
            let names = resolve(split_components(entries[i].path))->Some_0;
            assert(names == target);
            assert forall|k: int| 0 <= k < target.len() implies ordinary(#[trigger] target[k]) by {
                assert(ordinary(names[k]));
            }
        }
    }
}

/// Whatever an archive unpacks to lands inside the target directory.
pub proof fn law_unpacked_stays_inside(archive: Seq<u8>)
    ensures
        unpacked(archive) matches Ok(plan) ==> forall|j: int|
            0 <= j < plan.len() ==> lands_inside(#[trigger] plan[j]),
{
    if unpacked(archive) is Ok {
        law_targets_stay_inside(tar_entries(gunzip_output(archive)->Some_0)->Some_0);
    }
}

} // verus!
