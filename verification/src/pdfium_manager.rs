//! The page worker: the one owner of the open document and of its rendered
//! pages. It takes one command at a time and answers with the result that the
//! root store folds into its state.

use crate::domain::{image_view, pages_view, Bitmap, BitmapView, Page, PageView};
use crate::global_state::{GlobalResult, GlobalResultView};
use crate::page_cache::{
    ascending, lemma_missing, missing, window_end, window_start, with_pages, PageCache,
};
use crate::pixels::{can_scale, pack_pixels, packed, scaled_height};
use pdfium_render::prelude::{
    PdfBitmap, PdfDocument, PdfDocumentMetadataTagType, PdfPage, Pdfium, PdfiumError,
};
use std::sync::Arc;
use uuid::Uuid;
use vstd::prelude::*;

verus! {

/// The width, in pixels, at which pages and thumbnails are rendered.
pub const RENDER_WIDTH: u16 = 1000;

/// The length of a document id or content id: 32 hexadecimal digits in five
/// groups, with four hyphens between them.
pub const UUID_LENGTH: usize = 36;

/// `pdfium_render::prelude::Pdfium`, the bound document library. Nothing is
/// known of a value of it.
#[verifier::external_type_specification]
#[verifier::external_body]
pub struct ExPdfium(Pdfium);

/// `pdfium_render::prelude::PdfDocument`, an open document. Nothing is known
/// of a value of it.
#[verifier::external_type_specification]
#[verifier::external_body]
pub struct ExPdfDocument<'a>(PdfDocument<'a>);

/// `pdfium_render::prelude::PdfPage`, one page of an open document. Nothing
/// is known of a value of it.
#[verifier::external_type_specification]
#[verifier::external_body]
pub struct ExPdfPage<'a>(PdfPage<'a>);

/// `pdfium_render::prelude::PdfBitmap`, a rendered page. Nothing is known of
/// a value of it.
#[verifier::external_type_specification]
#[verifier::external_body]
pub struct ExPdfBitmap<'a>(PdfBitmap<'a>);

/// `pdfium_render::prelude::PdfiumError`, the error of every call into the
/// document library. Nothing is known of a value of it.
#[verifier::external_type_specification]
#[verifier::external_body]
pub struct ExPdfiumError(PdfiumError);

/// `Pdfium::load_pdf_from_byte_vec`, without a password: opens a document
/// from a buffer that the document then owns. Whether the bytes are a
/// document is for the library to say; nothing is claimed of the result.
#[verifier::external_body]
fn open_document<'a>(pdfium: &'a Pdfium, bytes: Vec<u8>) -> Result<PdfDocument<'a>, PdfiumError> {
    pdfium.load_pdf_from_byte_vec(bytes, None)
}

/// `PdfMetadata::get` for the title tag and for the author tag of `document`:
/// each tag's text where the document defines the tag. Nothing is claimed of
/// the texts.
#[verifier::external_body]
fn title_and_author(document: &PdfDocument) -> (Option<String>, Option<String>) {
    let metadata = document.metadata();
    let title = metadata.get(PdfDocumentMetadataTagType::Title);
    let author = metadata.get(PdfDocumentMetadataTagType::Author);
    (title.map(|tag| tag.value().to_string()), author.map(|tag| tag.value().to_string()))
}

/// `PdfPages::len` for the pages of `document`: the page count that the
/// library reports. Nothing is claimed of the number.
#[verifier::external_body]
fn page_count_of(document: &PdfDocument) -> i32 {
    document.pages().len()
}

/// `PdfPages::get` for the pages of `document`: the page at `index`, or the
/// library's error. Nothing is claimed of the result.
#[verifier::external_body]
fn page_of<'a>(document: &PdfDocument<'a>, index: i32) -> Result<PdfPage<'a>, PdfiumError> {
    document.pages().get(index)
}

/// `PdfPage::width`: the native width of `page` in whole points. Nothing is
/// claimed of the number.
#[verifier::external_body]
fn native_width_of(page: &PdfPage) -> i32 {
    page.width().value as i32
}

/// `PdfPage::height`: the native height of `page` in whole points. Nothing is
/// claimed of the number.
#[verifier::external_body]
fn native_height_of(page: &PdfPage) -> i32 {
    page.height().value as i32
}

/// `PdfPage::render`, without rotation: `page` drawn into a new bitmap of the
/// given size, or the library's error. It is asked for bitmaps of at least
/// one pixel each way only. Nothing is claimed of the result.
#[verifier::external_body]
fn render<'a>(page: &'a PdfPage, width: i32, height: i32) -> Result<PdfBitmap<'a>, PdfiumError>
    requires
        width >= 1,
        height >= 1,
{
    page.render(width, height, None)
}

/// `PdfBitmap::as_raw_bytes`: a copy of the buffer behind `bitmap`. Nothing is
/// claimed of the bytes.
#[verifier::external_body]
fn bytes_of(bitmap: &PdfBitmap) -> Vec<u8> {
    bitmap.as_raw_bytes()
}

/// `Uuid::new_v4`, written out by `to_string`: a fresh random id in its
/// hyphenated form, which is 36 characters long whatever the id.
#[verifier::external_body]
fn random_uuid() -> (text: String)
    ensures
        text@.len() == UUID_LENGTH,
{
    Uuid::new_v4().to_string()
}

/// A fresh id for a document that is about to be loaded.
pub fn generate_pdf_uuid() -> (uuid: String)
    ensures
        uuid@.len() == UUID_LENGTH,
{
    random_uuid()
}

/// What the worker is asked to do.
pub enum PdfiumAction {
    LoadPdf { uuid: String, file_name: String, bytes: Vec<u8> },
    PageLoadRequested { page_index: i32 },
}

/// What a [`PdfiumAction`] holds.
pub enum PdfiumActionView {
    LoadPdf { uuid: Seq<char>, file_name: Seq<char>, bytes: Seq<u8> },
    PageLoadRequested { page_index: i32 },
}

impl View for PdfiumAction {
    type V = PdfiumActionView;

    open spec fn view(&self) -> PdfiumActionView {
        match *self {
            PdfiumAction::LoadPdf { uuid, file_name, bytes } => PdfiumActionView::LoadPdf {
                uuid: uuid@,
                file_name: file_name@,
                bytes: bytes@,
            },
            PdfiumAction::PageLoadRequested { page_index } => PdfiumActionView::PageLoadRequested {
                page_index,
            },
        }
    }
}

/// Why a page could not be rendered.
#[derive(Clone, Copy, Debug, PartialEq, Eq, Structural)]
pub enum RenderFailure {
    /// The document has no page at the index asked for.
    PageUnavailable,
    /// The page's native size is not positive, or at the width asked for its
    /// height would be no pixel or more than sixteen bits hold.
    BadDimensions,
    /// The document library failed to draw the page.
    Backend,
}

/// The text of an optional metadata tag: empty where the tag is not defined.
pub open spec fn tag_text(tag: Option<String>) -> Seq<char> {
    match tag {
        Some(text) => text@,
        None => Seq::empty(),
    }
}

/// The title a document is shown under: its own title, or the name of its file
/// where it has none.
pub open spec fn display_title(title: Seq<char>, file_name: Seq<char>) -> Seq<char> {
    if title.len() == 0 {
        file_name
    } else {
        title
    }
}

/// The rendered image of a page: `width` by `height`, known by `uid`, its
/// pixels packed from `bytes`.
pub fn image_from_render(width: u16, height: u16, uid: String, bytes: &[u8]) -> (image: Arc<Bitmap>)
    ensures
        image@ == (BitmapView {
            width: width as i32,
            height: height as i32,
            uid: uid@,
            pixels: packed(bytes@),
        }),
{
    Bitmap::new(width as i32, height as i32, uid, pack_pixels(bytes))
}

/// The answer to a load command whose document was opened.
pub fn loaded_reply(
    uuid: String,
    file_name: String,
    title: Option<String>,
    author: Option<String>,
    thumbnail: Option<Arc<Bitmap>>,
    page_count: i32,
) -> (reply: GlobalResult)
    ensures
        reply@ == (GlobalResultView::PdfLoaded {
            id: uuid@,
            title: display_title(tag_text(title), file_name@),
            author: tag_text(author),
            thumbnail: image_view(thumbnail),
            page_count,
        }),
{
    let title = match title {
        Some(text) => text,
        None => String::new(),
    };
    let author = match author {
        Some(text) => text,
        None => String::new(),
    };
    let display_title = if title.as_str().is_empty() {
        file_name
    } else {
        title
    };
    GlobalResult::PdfLoaded { id: uuid, title: display_title, author, thumbnail, page_count }
}

/// Renders `page` at `max_width` pixels, with the height that keeps its
/// aspect ratio, under a fresh content id.
///
/// The page's size and its drawing are the document library's; whatever it
/// hands back, an image that comes out is `max_width` wide, at least one pixel
/// high, and known by an id of 36 characters.
pub fn get_page_image(page: &PdfPage, max_width: u16) -> (image: Result<Arc<Bitmap>, RenderFailure>)
    ensures
        match image {
            Ok(bitmap) => {
                &&& bitmap@.width == max_width
                &&& 1 <= bitmap@.height <= u16::MAX
                &&& bitmap@.uid.len() == UUID_LENGTH
            },
            Err(failure) => failure == RenderFailure::BadDimensions || failure
                == RenderFailure::Backend,
        },
{
    let native_width = native_width_of(page);
    let native_height = native_height_of(page);
    match scaled_height(max_width, native_width, native_height) {
        None => Err(RenderFailure::BadDimensions),
        Some(height) => {
            assert(max_width >= 1) by {
                assert(can_scale(max_width, native_width, native_height));
                if max_width == 0 {
                    assert(max_width * native_height == 0) by (nonlinear_arith)
                        requires
                            max_width == 0,
                    ;
                    assert(0int / (native_width as int) == 0);
                }
            }
            match render(page, max_width as i32, height as i32) {
                Err(_) => Err(RenderFailure::Backend),
                Ok(bitmap) => {
                    let bytes = bytes_of(&bitmap);
                    Ok(image_from_render(max_width, height, random_uuid(), bytes.as_slice()))
                },
            }
        },
    }
}

/// Renders the first page of `pdf` as the document's thumbnail.
pub fn get_thumbnail(pdf: &PdfDocument) -> (image: Result<Arc<Bitmap>, RenderFailure>)
    ensures
        image matches Ok(bitmap) ==> {
            &&& bitmap@.width == RENDER_WIDTH
            &&& 1 <= bitmap@.height <= u16::MAX
            &&& bitmap@.uid.len() == UUID_LENGTH
        },
{
    match page_of(pdf, 0) {
        Err(_) => Err(RenderFailure::PageUnavailable),
        Ok(first_page) => get_page_image(&first_page, RENDER_WIDTH),
    }
}

/// The indices of `pages`, in order.
pub open spec fn page_indices(pages: Seq<PageView>) -> Seq<i32> {
    pages.map_values(|page: PageView| page.index)
}

/// Whether `picked` can be had from `all` by leaving elements out.
pub open spec fn picked_from(picked: Seq<i32>, all: Seq<i32>) -> bool
    decreases all.len(),
{
    if picked.len() == 0 {
        true
    } else if all.len() == 0 {
        false
    } else {
        ||| (picked.last() == all.last() && picked_from(picked.drop_last(), all.drop_last()))
        ||| picked_from(picked, all.drop_last())
    }
}

/// What is picked from a list is among its elements, and ascends where the
/// list does.
pub proof fn lemma_picked_are_among(picked: Seq<i32>, all: Seq<i32>)
    requires
        picked_from(picked, all),
    ensures
        forall|k: int| 0 <= k < picked.len() ==> all.contains(#[trigger] picked[k]),
        ascending(all) ==> ascending(picked),
    decreases all.len(),
{
    if picked.len() > 0 {
        let front = all.drop_last();
        assert forall|index: i32| front.contains(index) implies all.contains(index) by {
            let i = choose|i: int| 0 <= i < front.len() && front[i] == index;
            assert(all[i] == index);
        }
        if ascending(all) {
            assert forall|index: i32| front.contains(index) implies index < all.last() by {
                let i = choose|i: int| 0 <= i < front.len() && front[i] == index;
                assert(all[i] < all[all.len() - 1]);
            }
        }
        if picked.last() == all.last() && picked_from(picked.drop_last(), front) {
            let rest = picked.drop_last();
            lemma_picked_are_among(rest, front);
            assert(all[all.len() - 1] == picked.last());
            assert forall|k: int| 0 <= k < picked.len() implies all.contains(
                #[trigger] picked[k],
            ) by {
                if k < rest.len() {
                    assert(front.contains(rest[k]));
                }
            }
            if ascending(all) {
                assert forall|j: int, k: int| 0 <= j < k < picked.len() implies picked[j]
                    < picked[k] by {
                    assert(front.contains(rest[j]));
                    if k < rest.len() {
                        assert(rest[j] < rest[k]);
                    }
                }
            }
        } else {
            lemma_picked_are_among(picked, front);
        }
    }
}

/// No page is rendered twice: the pages that a request brings are pages of
/// the window around the requested one that were not held, each once, in
/// ascending order.
pub proof fn lemma_rendered_pages_are_new(
    cache: Map<i32, BitmapView>,
    page_index: i32,
    page_count: i32,
    pages: Seq<PageView>,
)
    requires
        picked_from(page_indices(pages), missing(cache.dom(), page_index, page_count)),
    ensures
        forall|k: int|
            0 <= k < pages.len() ==> {
                &&& !cache.contains_key((#[trigger] pages[k]).index)
                &&& window_start(page_index) <= pages[k].index < window_end(page_index, page_count)
            },
        ascending(page_indices(pages)),
{
    let wanted = missing(cache.dom(), page_index, page_count);
    lemma_missing(cache.dom(), page_index, page_count);
    lemma_picked_are_among(page_indices(pages), wanted);
    assert forall|k: int| 0 <= k < pages.len() implies {
        &&& !cache.contains_key((#[trigger] pages[k]).index)
        &&& window_start(page_index) <= pages[k].index < window_end(page_index, page_count)
    } by {
        assert(wanted.contains(page_indices(pages)[k]));
    }
}

/// Whether every one of `pages` holds an image of the render width.
pub open spec fn all_rendered(pages: Seq<PageView>) -> bool {
    forall|k: int|
        0 <= k < pages.len() ==> ((#[trigger] pages[k]).image matches Some(image) && image.width
            == RENDER_WIDTH)
}

/// Renders the pages of `pdf` at `indices`, in order. A page that the
/// document does not hand out, or that fails to render, is left out; the rest
/// still come.
pub fn render_pages(pdf: &PdfDocument, indices: &Vec<i32>) -> (rendered: Vec<Arc<Page>>)
    ensures
        picked_from(page_indices(pages_view(rendered@)), indices@),
        all_rendered(pages_view(rendered@)),
{
    let mut rendered: Vec<Arc<Page>> = Vec::new();
    let mut k: usize = 0;
    while k < indices.len()
        invariant
            k <= indices.len(),
            picked_from(page_indices(pages_view(rendered@)), indices@.subrange(0, k as int)),
            all_rendered(pages_view(rendered@)),
        decreases indices.len() - k,
    {
        let index = indices[k];
        let ghost seen = indices@.subrange(0, k as int);
        let ghost seen_next = indices@.subrange(0, k + 1);
        let ghost before = page_indices(pages_view(rendered@));
        let ghost pages_before = pages_view(rendered@);
        proof {
            assert(seen_next.drop_last() =~= seen);
            assert(seen_next.last() == index);
        }
        let outcome = match page_of(pdf, index) {
            Err(_) => Err(RenderFailure::PageUnavailable),
            Ok(page) => get_page_image(&page, RENDER_WIDTH),
        };
        keep_rendered(&mut rendered, index, outcome);
        proof {
            if outcome is Ok {
                let after = page_indices(pages_view(rendered@));
                assert(after.drop_last() =~= before);
                assert(after.last() == index);
                assert(pages_view(rendered@) == pages_before.push(
                    PageView { index, image: Some(outcome->Ok_0@) },
                ));
            }
        }
        k += 1;
    }
    assert(indices@.subrange(0, k as int) =~= indices@);
    rendered
}

/// The rendered pages once the attempt to render the page `index` has come
/// to `outcome`: an image is kept as the page's, after the pages that came
/// before; a failure leaves the pages as they are.
pub open spec fn with_outcome(
    pages: Seq<PageView>,
    index: i32,
    outcome: Result<Arc<Bitmap>, RenderFailure>,
) -> Seq<PageView> {
    match outcome {
        Ok(image) => pages.push(PageView { index, image: Some(image@) }),
        Err(_) => pages,
    }
}

/// Takes in the outcome of rendering the page `index`: the page is added to
/// `rendered` with its image where there is one, and passed over where the
/// rendering failed, so that one failure costs one page only.
pub fn keep_rendered(
    rendered: &mut Vec<Arc<Page>>,
    index: i32,
    outcome: Result<Arc<Bitmap>, RenderFailure>,
)
    ensures
        pages_view(final(rendered)@) == with_outcome(pages_view(old(rendered)@), index, outcome),
{
    match outcome {
        Ok(image) => {
            rendered.push(Arc::new(Page { index, image: Some(image) }));
            assert(pages_view(rendered@) =~= with_outcome(
                pages_view(old(rendered)@),
                index,
                outcome,
            ));
        },
        Err(_) => {},
    }
}

/// The page worker's state: the open document, if there is one, and the pages
/// of it that have been rendered.
pub struct PdfiumManager<'a> {
    document: Option<PdfDocument<'a>>,
    pages: PageCache,
}

impl<'a> PdfiumManager<'a> {
    /// The open document, if there is one.
    pub closed spec fn document(&self) -> Option<PdfDocument<'a>> {
        self.document
    }

    /// The rendered pages that are held, by index.
    pub closed spec fn cache(&self) -> Map<i32, BitmapView> {
        self.pages@
    }

    /// What holds of a load command's answer and of the worker after it,
    /// whatever the document library made of the bytes.
    ///
    /// Either the document was opened: the answer carries the command's id, a
    /// title that is the file's name unless the document has a title of its
    /// own, and a thumbnail of the render width if there is one; the worker
    /// holds a document and no rendered page. Or it was not: the answer is the
    /// failure of that id, and the worker holds what it held.
    pub open spec fn loaded(
        &self,
        before: &Self,
        uuid: Seq<char>,
        file_name: Seq<char>,
        reply: GlobalResultView,
    ) -> bool {
        match reply {
            GlobalResultView::PdfLoaded { id, title, author, thumbnail, page_count } => {
                &&& id == uuid
                &&& title == file_name || title.len() > 0
                &&& thumbnail matches Some(image) ==> image.width == RENDER_WIDTH
                &&& self.document() is Some
                &&& self.cache() == Map::<i32, BitmapView>::empty()
            },
            GlobalResultView::PdfLoadingFailed { uuid: failed } => {
                &&& failed == uuid
                &&& self.document() == before.document()
                &&& self.cache() == before.cache()
            },
            _ => false,
        }
    }

    /// What holds of a page request's answer and of the worker after it,
    /// whatever the document library rendered.
    ///
    /// Without a document there is no answer and nothing changes. With one,
    /// the answer holds rendered pages only, picked in order from the pages of
    /// the window around `page_index` that were not held, for the page count
    /// the library reported; the worker holds them from then on, and the
    /// document it held.
    pub open spec fn pages_loaded(
        &self,
        before: &Self,
        page_index: i32,
        reply: Option<GlobalResultView>,
    ) -> bool {
        &&& self.document() == before.document()
        &&& match reply {
            None => before.document() is None && self.cache() == before.cache(),
            Some(GlobalResultView::PagesLoaded { pages }) => {
                &&& before.document() is Some
                &&& all_rendered(pages)
                &&& exists|page_count: i32|
                    picked_from(
                        page_indices(pages),
                        #[trigger] missing(before.cache().dom(), page_index, page_count),
                    )
                &&& self.cache() == with_pages(before.cache(), pages)
            },
            Some(_) => false,
        }
    }

    /// A worker with no document.
    pub fn new() -> (worker: Self)
        ensures
            worker.document() is None,
            worker.cache() == Map::<i32, BitmapView>::empty(),
    {
        PdfiumManager { document: None, pages: PageCache::new() }
    }

    /// Whether a document is open.
    pub fn has_document(&self) -> (open: bool)
        ensures
            open == self.document() is Some,
    {
        self.document.is_some()
    }

    /// Takes over a document that was opened, together with what the document
    /// library told of it: the document replaces the one held so far, the
    /// rendered pages are forgotten, and the answer is the document's record.
    pub fn adopt(
        &mut self,
        pdf: PdfDocument<'a>,
        uuid: String,
        file_name: String,
        title: Option<String>,
        author: Option<String>,
        thumbnail: Option<Arc<Bitmap>>,
        page_count: i32,
    ) -> (reply: GlobalResult)
        ensures
            reply@ == (GlobalResultView::PdfLoaded {
                id: uuid@,
                title: display_title(tag_text(title), file_name@),
                author: tag_text(author),
                thumbnail: image_view(thumbnail),
                page_count,
            }),
            final(self).document() == Some(pdf),
            final(self).cache() == Map::<i32, BitmapView>::empty(),
    {
        let reply = loaded_reply(uuid, file_name, title, author, thumbnail, page_count);
        self.document = Some(pdf);
        self.pages.clear();
        reply
    }

    /// Opens a document from `bytes` with the document library `pdfium`. On
    /// success it takes the place of the document held so far and the rendered
    /// pages are forgotten; on failure the worker keeps what it has.
    pub fn load_pdf(
        &mut self,
        pdfium: &'a Pdfium,
        uuid: String,
        file_name: String,
        bytes: Vec<u8>,
    ) -> (reply: GlobalResult)
        ensures
            final(self).loaded(old(self), uuid@, file_name@, reply@),
    {
        match open_document(pdfium, bytes) {
            Ok(pdf) => {
                let (title, author) = title_and_author(&pdf);
                let page_count = page_count_of(&pdf);
                let thumbnail = match get_thumbnail(&pdf) {
                    Ok(image) => Some(image),
                    Err(_) => None,
                };
                self.adopt(pdf, uuid, file_name, title, author, thumbnail, page_count)
            },
            Err(_) => GlobalResult::PdfLoadingFailed { uuid },
        }
    }

    /// Renders the pages around `page_index` that are not held yet, and keeps
    /// them. The answer names the newly rendered pages only.
    pub fn load_pages(&mut self, page_index: i32) -> (reply: Option<GlobalResult>)
        ensures
            final(self).pages_loaded(
                old(self),
                page_index,
                match reply {
                    Some(result) => Some(result@),
                    None => None,
                },
            ),
    {
        match &self.document {
            None => None,
            Some(pdf) => {
                let pages_count = page_count_of(pdf);
                let indices = self.pages.missing_pages(page_index, pages_count);
                let rendered = render_pages(pdf, &indices);
                self.pages.record(&rendered);
                assert(picked_from(
                    page_indices(pages_view(rendered@)),
                    missing(old(self).cache().dom(), page_index, pages_count),
                ));
                Some(GlobalResult::PagesLoaded { pages: rendered })
            },
        }
    }

    /// Carries out one command. A load is always answered; a page request is
    /// answered only where a document is open.
    pub fn process(&mut self, pdfium: &'a Pdfium, action: PdfiumAction) -> (reply: Option<
        GlobalResult,
    >)
        ensures
            match action@ {
                PdfiumActionView::LoadPdf { uuid, file_name, bytes } => {
                    reply matches Some(result) && final(self).loaded(
                        old(self),
                        uuid,
                        file_name,
                        result@,
                    )
                },
                PdfiumActionView::PageLoadRequested { page_index } => final(self).pages_loaded(
                    old(self),
                    page_index,
                    match reply {
                        Some(result) => Some(result@),
                        None => None,
                    },
                ),
            },
    {
        match action {
            PdfiumAction::LoadPdf { uuid, file_name, bytes } => Some(
                self.load_pdf(pdfium, uuid, file_name, bytes),
            ),
            PdfiumAction::PageLoadRequested { page_index } => self.load_pages(page_index),
        }
    }
}

} // verus!
