//! Value types shared by every store: rendered images, page slots and
//! document records, each with the mathematical view the contracts speak of.

use std::sync::Arc;
use vstd::prelude::*;

verus! {

/// A rendered image. Two bitmaps are the same image when their content ids
/// agree; the pixel buffer is never compared.
pub struct Bitmap {
    pub width: i32,
    pub height: i32,
    pub uid: String,
    pub pixels: Vec<u32>,
}

/// What a [`Bitmap`] holds.
pub struct BitmapView {
    pub width: i32,
    pub height: i32,
    pub uid: Seq<char>,
    pub pixels: Seq<u32>,
}

impl BitmapView {
    /// Image identity: equal content ids.
    pub open spec fn same(self, other: BitmapView) -> bool {
        self.uid == other.uid
    }
}

impl View for Bitmap {
    type V = BitmapView;

    open spec fn view(&self) -> BitmapView {
        BitmapView { width: self.width, height: self.height, uid: self.uid@, pixels: self.pixels@ }
    }
}

/// The view of an optional shared image.
pub open spec fn image_view(image: Option<Arc<Bitmap>>) -> Option<BitmapView> {
    match image {
        None => None,
        Some(bitmap) => Some(bitmap@),
    }
}

/// Identity of optional images: both absent, or both present with equal
/// content ids.
pub open spec fn same_image(a: Option<BitmapView>, b: Option<BitmapView>) -> bool {
    match (a, b) {
        (None, None) => true,
        (Some(x), Some(y)) => x.same(y),
        _ => false,
    }
}

/// `Arc::clone`: the new handle points at the same allocation, so it holds the
/// value the given handle holds.
#[verifier::external_body]
pub(crate) fn share<T>(value: &Arc<T>) -> (shared: Arc<T>)
    ensures
        shared == *value,
{
    Arc::clone(value)
}

/// A second handle to an optional shared image.
pub fn share_image(image: &Option<Arc<Bitmap>>) -> (shared: Option<Arc<Bitmap>>)
    ensures
        shared == *image,
{
    match image {
        None => None,
        Some(bitmap) => Some(share(bitmap)),
    }
}

/// Decides image identity.
pub fn images_match(a: &Option<Arc<Bitmap>>, b: &Option<Arc<Bitmap>>) -> (r: bool)
    ensures
        r == same_image(image_view(*a), image_view(*b)),
{
    match (a, b) {
        (None, None) => true,
        (Some(x), Some(y)) => x.uid == y.uid,
        _ => false,
    }
}

impl Bitmap {
    pub fn new(width: i32, height: i32, uid: String, pixels: Vec<u32>) -> (bitmap: Arc<Bitmap>)
        ensures
            bitmap@ == (BitmapView { width, height, uid: uid@, pixels: pixels@ }),
    {
        Arc::new(Bitmap { width, height, uid, pixels })
    }

    pub fn width(&self) -> (w: i32)
        ensures
            w == self@.width,
    {
        self.width
    }

    pub fn height(&self) -> (h: i32)
        ensures
            h == self@.height,
    {
        self.height
    }

    pub fn uid(&self) -> (uid: String)
        ensures
            uid@ == self@.uid,
    {
        self.uid.clone()
    }

    pub fn copy_pixels(&self) -> (pixels: Vec<u32>)
        ensures
            pixels@ == self@.pixels,
    {
        self.pixels.clone()
    }
}

impl PartialEq for Bitmap {
    fn eq(&self, other: &Self) -> (r: bool) {
        self.uid == other.uid
    }
}

impl vstd::std_specs::cmp::PartialEqSpecImpl for Bitmap {
    open spec fn obeys_eq_spec() -> bool {
        true
    }

    open spec fn eq_spec(&self, other: &Self) -> bool {
        self@.same(other@)
    }
}

/// One page slot of the current document: empty until the page is rendered.
pub struct Page {
    pub index: i32,
    pub image: Option<Arc<Bitmap>>,
}

/// What a [`Page`] holds.
pub struct PageView {
    pub index: i32,
    pub image: Option<BitmapView>,
}

impl PageView {
    /// Page identity: equal indices and the same image.
    pub open spec fn same(self, other: PageView) -> bool {
        self.index == other.index && same_image(self.image, other.image)
    }
}

impl View for Page {
    type V = PageView;

    open spec fn view(&self) -> PageView {
        PageView { index: self.index, image: image_view(self.image) }
    }
}

impl Page {
    pub fn index(&self) -> (index: i32)
        ensures
            index == self@.index,
    {
        self.index
    }

    /// A second handle to this slot's image, if it has one.
    pub fn image(&self) -> (image: Option<Arc<Bitmap>>)
        ensures
            image == self.image,
    {
        share_image(&self.image)
    }
}

impl Clone for Page {
    fn clone(&self) -> (page: Self)
        ensures
            page == *self,
    {
        Page { index: self.index, image: share_image(&self.image) }
    }
}

impl PartialEq for Page {
    fn eq(&self, other: &Self) -> (r: bool) {
        self.index == other.index && images_match(&self.image, &other.image)
    }
}

impl vstd::std_specs::cmp::PartialEqSpecImpl for Page {
    open spec fn obeys_eq_spec() -> bool {
        true
    }

    open spec fn eq_spec(&self, other: &Self) -> bool {
        self@.same(other@)
    }
}

/// How far the loading of a document has come.
pub enum PdfLoadingState {
    LoadingPdf,
    ValidPdf { title: String, author: String, thumbnail: Option<Arc<Bitmap>>, page_count: i32 },
    ErrorPdf,
}

/// What a [`PdfLoadingState`] holds.
pub enum LoadingStateView {
    LoadingPdf,
    ValidPdf { title: Seq<char>, author: Seq<char>, thumbnail: Option<BitmapView>, page_count: i32 },
    ErrorPdf,
}

impl LoadingStateView {
    /// Identity of loading states: the same variant with equal fields, images
    /// compared by content id.
    pub open spec fn same(self, other: LoadingStateView) -> bool {
        match (self, other) {
            (LoadingStateView::LoadingPdf, LoadingStateView::LoadingPdf) => true,
            (LoadingStateView::ErrorPdf, LoadingStateView::ErrorPdf) => true,
            (
                LoadingStateView::ValidPdf { title, author, thumbnail, page_count },
                LoadingStateView::ValidPdf {
                    title: other_title,
                    author: other_author,
                    thumbnail: other_thumbnail,
                    page_count: other_page_count,
                },
            ) => {
                &&& title == other_title
                &&& author == other_author
                &&& same_image(thumbnail, other_thumbnail)
                &&& page_count == other_page_count
            },
            _ => false,
        }
    }
}

impl View for PdfLoadingState {
    type V = LoadingStateView;

    open spec fn view(&self) -> LoadingStateView {
        match *self {
            PdfLoadingState::LoadingPdf => LoadingStateView::LoadingPdf,
            PdfLoadingState::ValidPdf { title, author, thumbnail, page_count } => {
                LoadingStateView::ValidPdf {
                    title: title@,
                    author: author@,
                    thumbnail: image_view(thumbnail),
                    page_count,
                }
            },
            PdfLoadingState::ErrorPdf => LoadingStateView::ErrorPdf,
        }
    }
}

impl Clone for PdfLoadingState {
    fn clone(&self) -> (state: Self)
        ensures
            state == *self,
    {
        match self {
            PdfLoadingState::LoadingPdf => PdfLoadingState::LoadingPdf,
            PdfLoadingState::ValidPdf { title, author, thumbnail, page_count } => {
                PdfLoadingState::ValidPdf {
                    title: title.clone(),
                    author: author.clone(),
                    thumbnail: share_image(thumbnail),
                    page_count: *page_count,
                }
            },
            PdfLoadingState::ErrorPdf => PdfLoadingState::ErrorPdf,
        }
    }
}

impl PartialEq for PdfLoadingState {
    fn eq(&self, other: &Self) -> (r: bool) {
        match (self, other) {
            (PdfLoadingState::LoadingPdf, PdfLoadingState::LoadingPdf) => true,
            (PdfLoadingState::ErrorPdf, PdfLoadingState::ErrorPdf) => true,
            (
                PdfLoadingState::ValidPdf { title, author, thumbnail, page_count },
                PdfLoadingState::ValidPdf {
                    title: other_title,
                    author: other_author,
                    thumbnail: other_thumbnail,
                    page_count: other_page_count,
                },
            ) => {
                *title == *other_title && *author == *other_author && images_match(
                    thumbnail,
                    other_thumbnail,
                ) && *page_count == *other_page_count
            },
            _ => false,
        }
    }
}

impl vstd::std_specs::cmp::PartialEqSpecImpl for PdfLoadingState {
    open spec fn obeys_eq_spec() -> bool {
        true
    }

    open spec fn eq_spec(&self, other: &Self) -> bool {
        self@.same(other@)
    }
}

/// A document record. Its id is chosen once, when the load is requested.
pub struct Book {
    pub uuid: String,
    pub thumbnail: Option<Arc<Bitmap>>,
    pub loading_state: PdfLoadingState,
}

/// What a [`Book`] holds.
pub struct BookView {
    pub uuid: Seq<char>,
    pub thumbnail: Option<BitmapView>,
    pub loading_state: LoadingStateView,
}

impl BookView {
    /// Identity of document records: equal ids, the same thumbnail and the
    /// same loading state.
    pub open spec fn same(self, other: BookView) -> bool {
        &&& self.uuid == other.uuid
        &&& same_image(self.thumbnail, other.thumbnail)
        &&& self.loading_state.same(other.loading_state)
    }
}

impl View for Book {
    type V = BookView;

    open spec fn view(&self) -> BookView {
        BookView {
            uuid: self.uuid@,
            thumbnail: image_view(self.thumbnail),
            loading_state: self.loading_state@,
        }
    }
}

impl Clone for Book {
    fn clone(&self) -> (book: Self)
        ensures
            book == *self,
    {
        Book {
            uuid: self.uuid.clone(),
            thumbnail: share_image(&self.thumbnail),
            loading_state: self.loading_state.clone(),
        }
    }
}

impl PartialEq for Book {
    fn eq(&self, other: &Self) -> (r: bool) {
        self.uuid == other.uuid && images_match(&self.thumbnail, &other.thumbnail)
            && self.loading_state == other.loading_state
    }
}

impl vstd::std_specs::cmp::PartialEqSpecImpl for Book {
    open spec fn obeys_eq_spec() -> bool {
        true
    }

    open spec fn eq_spec(&self, other: &Self) -> bool {
        self@.same(other@)
    }
}

/// The views of a list of document records, in order.
pub open spec fn books_view(books: Seq<Book>) -> Seq<BookView> {
    books.map_values(|book: Book| book@)
}

/// The views of a list of shared page slots, in order.
pub open spec fn pages_view(pages: Seq<Arc<Page>>) -> Seq<PageView> {
    pages.map_values(|page: Arc<Page>| page@)
}

/// Identity of document lists: equal lengths and the same record at every
/// position.
pub open spec fn same_books(a: Seq<BookView>, b: Seq<BookView>) -> bool {
    &&& a.len() == b.len()
    &&& forall|i: int| 0 <= i < a.len() ==> (#[trigger] a[i]).same(b[i])
}

/// Identity of page lists: equal lengths and the same page at every position.
pub open spec fn same_pages(a: Seq<PageView>, b: Seq<PageView>) -> bool {
    &&& a.len() == b.len()
    &&& forall|i: int| 0 <= i < a.len() ==> (#[trigger] a[i]).same(b[i])
}

/// Identity of document lists is an equivalence: every list is the same as
/// itself, and two lists that are the same as a third are the same as each
/// other.
pub proof fn lemma_same_books_is_equivalence(a: Seq<BookView>, b: Seq<BookView>, c: Seq<BookView>)
    ensures
        same_books(a, a),
        same_books(a, b) ==> same_books(b, a),
        same_books(a, b) && same_books(a, c) ==> same_books(b, c),
        same_books(a, b) && same_books(b, c) ==> same_books(a, c),
{
    if same_books(a, b) {
        assert forall|i: int| 0 <= i < b.len() implies (#[trigger] b[i]).same(a[i]) by {
            assert(a[i].same(b[i]));
        }
        if same_books(a, c) {
            assert forall|i: int| 0 <= i < b.len() implies (#[trigger] b[i]).same(c[i]) by {
                assert(a[i].same(b[i]));
                assert(a[i].same(c[i]));
            }
        }
        if same_books(b, c) {
            assert forall|i: int| 0 <= i < a.len() implies (#[trigger] a[i]).same(c[i]) by {
                assert(a[i].same(b[i]));
                assert(b[i].same(c[i]));
            }
        }
    }
}

/// Identity of page lists is an equivalence: every list is the same as
/// itself, and two lists that are the same as a third are the same as each
/// other.
pub proof fn lemma_same_pages_is_equivalence(a: Seq<PageView>, b: Seq<PageView>, c: Seq<PageView>)
    ensures
        same_pages(a, a),
        same_pages(a, b) ==> same_pages(b, a),
        same_pages(a, b) && same_pages(a, c) ==> same_pages(b, c),
        same_pages(a, b) && same_pages(b, c) ==> same_pages(a, c),
{
    if same_pages(a, b) {
        assert forall|i: int| 0 <= i < b.len() implies (#[trigger] b[i]).same(a[i]) by {
            assert(a[i].same(b[i]));
        }
        if same_pages(a, c) {
            assert forall|i: int| 0 <= i < b.len() implies (#[trigger] b[i]).same(c[i]) by {
                assert(a[i].same(b[i]));
                assert(a[i].same(c[i]));
            }
        }
        if same_pages(b, c) {
            assert forall|i: int| 0 <= i < a.len() implies (#[trigger] a[i]).same(c[i]) by {
                assert(a[i].same(b[i]));
                assert(b[i].same(c[i]));
            }
        }
    }
}

/// A copy of a document list that shares every image with the given one.
pub fn clone_books(books: &Vec<Book>) -> (copy: Vec<Book>)
    ensures
        copy@ == books@,
{
    let mut copy: Vec<Book> = Vec::new();
    let mut i: usize = 0;
    while i < books.len()
        invariant
            i <= books.len(),
            copy@ == books@.subrange(0, i as int),
        decreases books.len() - i,
    {
        copy.push(books[i].clone());
        i += 1;
    }
    copy
}

/// A copy of a page list that shares every slot with the given one.
pub fn clone_pages(pages: &Vec<Arc<Page>>) -> (copy: Vec<Arc<Page>>)
    ensures
        copy@ == pages@,
{
    let mut copy: Vec<Arc<Page>> = Vec::new();
    let mut i: usize = 0;
    while i < pages.len()
        invariant
            i <= pages.len(),
            copy@ == pages@.subrange(0, i as int),
        decreases pages.len() - i,
    {
        copy.push(share(&pages[i]));
        i += 1;
    }
    copy
}

/// Decides identity of document lists.
pub fn books_match(a: &Vec<Book>, b: &Vec<Book>) -> (r: bool)
    ensures
        r == same_books(books_view(a@), books_view(b@)),
{
    if a.len() != b.len() {
        return false;
    }
    let mut i: usize = 0;
    while i < a.len()
        invariant
            i <= a.len(),
            a.len() == b.len(),
            forall|j: int| 0 <= j < i ==> (#[trigger] books_view(a@)[j]).same(books_view(b@)[j]),
        decreases a.len() - i,
    {
        if !(a[i] == b[i]) {
            assert(!books_view(a@)[i as int].same(books_view(b@)[i as int]));
            return false;
        }
        i += 1;
    }
    true
}

/// Decides identity of page lists.
pub fn pages_match(a: &Vec<Arc<Page>>, b: &Vec<Arc<Page>>) -> (r: bool)
    ensures
        r == same_pages(pages_view(a@), pages_view(b@)),
{
    if a.len() != b.len() {
        return false;
    }
    let mut i: usize = 0;
    while i < a.len()
        invariant
            i <= a.len(),
            a.len() == b.len(),
            forall|j: int| 0 <= j < i ==> (#[trigger] pages_view(a@)[j]).same(pages_view(b@)[j]),
        decreases a.len() - i,
    {
        let x: &Page = &a[i];
        let y: &Page = &b[i];
        if !(*x == *y) {
            assert(!pages_view(a@)[i as int].same(pages_view(b@)[i as int]));
            return false;
        }
        i += 1;
    }
    true
}

} // verus!
