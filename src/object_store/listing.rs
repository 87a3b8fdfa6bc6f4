//! File records, and the listing of a bucket made from the pages of objects
//! that the storage service returns.

use vstd::prelude::*;
use crate::error::GCSError;

verus! {

/// A point in time: seconds since the Unix epoch and nanoseconds past them.
#[derive(Debug, Clone, Copy, PartialEq, Eq, Structural)]
pub struct Timestamp {
    pub secs: i64,
    pub nanos: u32,
}

/// One object as the storage service lists it.
#[derive(Debug)]
pub struct ObjectEntry {
    pub name: String,
    pub size: u64,
    pub updated: Option<Timestamp>,
}

/// An object entry as plain values.
pub struct EntryView {
    pub name: Seq<char>,
    pub size: u64,
    pub updated: Option<Timestamp>,
}

impl View for ObjectEntry {
    type V = EntryView;

    open spec fn view(&self) -> EntryView {
        EntryView { name: self.name@, size: self.size, updated: self.updated }
    }
}

/// A remote object: its path `bucket/key` and its size in bytes.
#[derive(Debug)]
pub struct SizedFile {
    pub path: String,
    pub size: u64,
}

/// A file found by a listing.
#[derive(Debug)]
pub struct FileMeta {
    pub sized_file: SizedFile,
    pub last_modified: Option<Timestamp>,
}

/// A file record as plain values.
pub struct FileMetaView {
    pub path: Seq<char>,
    pub size: u64,
    pub last_modified: Option<Timestamp>,
}

impl View for FileMeta {
    type V = FileMetaView;

    open spec fn view(&self) -> FileMetaView {
        FileMetaView {
            path: self.sized_file.path@,
            size: self.sized_file.size,
            last_modified: self.last_modified,
        }
    }
}

/// An entry of a listing by directory: a file, or a common prefix of names.
#[derive(Debug)]
pub enum ListEntry {
    FileMeta(FileMeta),
    Prefix(String),
}

/// One page of a listing response: its objects, or the failure that took its place.
pub type Page = Result<Vec<ObjectEntry>, GCSError>;

/// A page as plain values.
pub type PageView = Result<Seq<EntryView>, GCSError>;

/// One item of a listing: a file, or the failure that ends the listing.
pub type ListItem = Result<FileMeta, GCSError>;

/// A listing item as plain values.
pub type ListItemView = Result<FileMetaView, GCSError>;

/// A page as plain values.
pub open spec fn page_view(p: Page) -> PageView {
    match p {
        Ok(items) => Ok(items@.map_values(|o: ObjectEntry| o@)),
        Err(e) => Err(e),
    }
}

/// A listing item as plain values.
pub open spec fn item_view(x: ListItem) -> ListItemView {
    match x {
        Ok(m) => Ok(m@),
        Err(e) => Err(e),
    }
}

/// The path under which an object of `bucket` is listed: `bucket/name`.
pub open spec fn listed_path(bucket: Seq<char>, name: Seq<char>) -> Seq<char> {
    bucket + seq!['/'] + name
}

/// The file record of an object of `bucket`.
pub open spec fn meta_of(bucket: Seq<char>, o: EntryView) -> FileMetaView {
    FileMetaView { path: listed_path(bucket, o.name), size: o.size, last_modified: o.updated }
}

/// The files of one page, in order.
pub open spec fn page_items(bucket: Seq<char>, items: Seq<EntryView>) -> Seq<ListItemView> {
    items.map_values(|o: EntryView| Ok(meta_of(bucket, o)))
}

/// The listing of `bucket` made from `pages`: the files of each page in turn;
/// at the first failed page, its error as the last item.
pub open spec fn listing(bucket: Seq<char>, pages: Seq<PageView>) -> Seq<ListItemView>
    decreases pages.len(),
{
    if pages.len() == 0 {
        Seq::empty()
    } else {
        match pages[0] {
            Err(e) => seq![Err(e)],
            Ok(items) => page_items(bucket, items) + listing(bucket, pages.drop_first()),
        }
    }
}

/// The record of a listed object: path `bucket/name`, the listed size and time.
pub fn file_meta_of(bucket: &str, entry: &ObjectEntry) -> (r: FileMeta)
    ensures
        r@ == meta_of(bucket@, entry@),
{
    let mut path = String::from_str(bucket);
    proof {
        reveal_strlit("/");
    }
    path.append("/");
    path.append(entry.name.as_str());
    assert(path@ =~= listed_path(bucket@, entry.name@));
    FileMeta {
        sized_file: SizedFile { path, size: entry.size },
        last_modified: entry.updated,
    }
}

/// The files of one page of `bucket`, in order.
fn page_files(bucket: &str, items: &Vec<ObjectEntry>) -> (r: Vec<ListItem>)
    ensures
        r@.map_values(|x: ListItem| item_view(x)) == page_items(
            bucket@,
            items@.map_values(|o: ObjectEntry| o@),
        ),
{
    let mut out: Vec<ListItem> = Vec::new();
    let mut i: usize = 0;
    while i < items.len()
        invariant
            i <= items@.len(),
            out@.len() == i,
            forall|k: int| 0 <= k < i ==> item_view(#[trigger] out@[k]) == Ok::<FileMetaView, GCSError>(meta_of(bucket@, items@[k]@)),
        decreases items@.len() - i,
    {
        let m = file_meta_of(bucket, &items[i]);
        out.push(Ok(m));
        i = i + 1;
    }
    assert(out@.map_values(|x: ListItem| item_view(x)) =~= page_items(
        bucket@,
        items@.map_values(|o: ObjectEntry| o@),
    ));
    out
}

/// The listing of `bucket` made from the pages of a listing response: the
/// files of each page in turn, each under the path `bucket/name`; a failed
/// page ends the listing with its error, and the pages after it are left out.
pub fn listing_from_pages(bucket: &str, pages: Vec<Page>) -> (r: Vec<ListItem>)
    ensures
        r@.map_values(|x: ListItem| item_view(x)) == listing(
            bucket@,
            pages@.map_values(|p: Page| page_view(p)),
        ),
    decreases pages@.len(),
{
    let ghost views = pages@.map_values(|p: Page| page_view(p));
    if pages.len() == 0 {
        let r: Vec<ListItem> = Vec::new();
        assert(r@.map_values(|x: ListItem| item_view(x)) =~= Seq::<ListItemView>::empty());
        return r;
    }
    let mut rest = pages;
    let first = rest.remove(0);
    assert(rest@.map_values(|p: Page| page_view(p)) =~= views.drop_first());
    assert(views[0] == page_view(first));
    match first {
        Err(e) => {
            let r: Vec<ListItem> = vec![Err(e)];
            assert(r@.map_values(|x: ListItem| item_view(x)) =~= seq![Err::<FileMetaView, GCSError>(e)]);
            r
        },
        Ok(items) => {
            let mut out = page_files(bucket, &items);
            let ghost head = out@;
            let mut tail = listing_from_pages(bucket, rest);
            let ghost tail0 = tail@;
            out.append(&mut tail);
            assert(out@.map_values(|x: ListItem| item_view(x)) =~= head.map_values(
                |x: ListItem| item_view(x),
            ) + tail0.map_values(|x: ListItem| item_view(x)));
            out
        },
    }
}

/// `m` is the record of object `i` of page `j`: its path `bucket/name`, the
/// size and the time that the service reported.
pub open spec fn record_of_page_object(
    bucket: Seq<char>,
    pages: Seq<PageView>,
    j: int,
    i: int,
    m: FileMetaView,
) -> bool {
    &&& 0 <= j < pages.len()
    &&& pages[j] is Ok
    &&& 0 <= i < pages[j]->Ok_0.len()
    &&& m.path == listed_path(bucket, pages[j]->Ok_0[i].name)
    &&& m.size == pages[j]->Ok_0[i].size
    &&& m.last_modified == pages[j]->Ok_0[i].updated
}

/// Every file of a listing is an object that the service returned on one of
/// the pages, listed under `bucket/name` with the size the service reported.
pub proof fn lemma_listing_holds_listed_objects(bucket: Seq<char>, pages: Seq<PageView>, k: int)
    requires
        0 <= k < listing(bucket, pages).len(),
        listing(bucket, pages)[k] is Ok,
    ensures
        exists|j: int, i: int|
            #[trigger] record_of_page_object(bucket, pages, j, i, listing(bucket, pages)[k]->Ok_0),
    decreases pages.len(),
{
    match pages[0] {
        Err(e) => {},
        Ok(items) => {
            let head = page_items(bucket, items);
            let rest = pages.drop_first();
            if k < head.len() {
                assert(record_of_page_object(bucket, pages, 0, k, listing(bucket, pages)[k]->Ok_0));
            } else {
                lemma_listing_holds_listed_objects(bucket, rest, k - head.len());
                let m = listing(bucket, rest)[k - head.len()]->Ok_0;
                let (j, i) = choose|j: int, i: int|
                    #[trigger] record_of_page_object(bucket, rest, j, i, m);
                assert(pages[j + 1] == rest[j]);
                assert(record_of_page_object(bucket, pages, j + 1, i, listing(bucket, pages)[k]->Ok_0));
            }
        },
    }
}

/// At the first failed page a listing ends: it is the files of the pages
/// before that page, all of them files, then that page's error, and nothing
/// after it.
pub proof fn lemma_listing_stops_at_failed_page(bucket: Seq<char>, pages: Seq<PageView>, j: int)
    requires
        0 <= j < pages.len(),
        pages[j] is Err,
        forall|i: int| 0 <= i < j ==> #[trigger] pages[i] is Ok,
    ensures
        listing(bucket, pages) == listing(bucket, pages.take(j)) + seq![
            Err::<FileMetaView, GCSError>(pages[j]->Err_0),
        ],
        forall|k: int|
            0 <= k < listing(bucket, pages.take(j)).len() ==> #[trigger] listing(
                bucket,
                pages.take(j),
            )[k] is Ok,
    decreases j,
{
    if j == 0 {
        assert(pages.take(0) =~= Seq::<PageView>::empty());
        assert(listing(bucket, pages) =~= Seq::<ListItemView>::empty() + seq![
            Err::<FileMetaView, GCSError>(pages[0]->Err_0),
        ]);
    } else {
        let rest = pages.drop_first();
        assert forall|i: int| 0 <= i < j - 1 implies #[trigger] rest[i] is Ok by {
            assert(rest[i] == pages[i + 1]);
        }
        assert(rest[j - 1] == pages[j]);
        lemma_listing_stops_at_failed_page(bucket, rest, j - 1);
        let t = pages.take(j);
        assert(t.drop_first() =~= rest.take(j - 1));
        assert(t[0] == pages[0]);
        let items = pages[0]->Ok_0;
        assert(listing(bucket, t) == page_items(bucket, items) + listing(bucket, rest.take(j - 1)));
        assert(listing(bucket, pages) =~= listing(bucket, t) + seq![
            Err::<FileMetaView, GCSError>(pages[j]->Err_0),
        ]);
        assert forall|k: int| 0 <= k < listing(bucket, t).len() implies #[trigger] listing(
            bucket,
            t,
        )[k] is Ok by {
            let h = page_items(bucket, items);
            if k >= h.len() {
                assert(listing(bucket, t)[k] == listing(bucket, rest.take(j - 1))[k - h.len()]);
            }
        }
    }
}

} // verus!
