use reader_state::domain::{Bitmap, Page};
use reader_state::global_state::GlobalResult;
use reader_state::pdfium_manager::{
    generate_pdf_uuid, image_from_render, keep_rendered, loaded_reply, PdfiumAction,
    PdfiumManager, RenderFailure, RENDER_WIDTH, UUID_LENGTH,
};
use std::sync::Arc;

#[test]
fn generated_ids_are_hyphenated_uuids() {
    let id = generate_pdf_uuid();
    assert_eq!(id.len(), 36);
    assert_eq!(UUID_LENGTH, 36);
    let bytes = id.as_bytes();
    for (at, byte) in bytes.iter().enumerate() {
        if at == 8 || at == 13 || at == 18 || at == 23 {
            assert_eq!(*byte, b'-');
        } else {
            assert!(byte.is_ascii_hexdigit());
        }
    }
}

#[test]
fn generated_ids_differ() {
    assert_ne!(generate_pdf_uuid(), generate_pdf_uuid());
}

#[test]
fn loaded_reply_keeps_the_documents_own_title() {
    let reply = loaded_reply(
        "a1".to_string(),
        "report.pdf".to_string(),
        Some("Annual Report".to_string()),
        Some("Jo".to_string()),
        None,
        20,
    );
    match reply {
        GlobalResult::PdfLoaded { id, title, author, thumbnail, page_count } => {
            assert_eq!(id, "a1");
            assert_eq!(title, "Annual Report");
            assert_eq!(author, "Jo");
            assert!(thumbnail.is_none());
            assert_eq!(page_count, 20);
        },
        _ => panic!("a loaded document is answered with its record"),
    }
}

#[test]
fn loaded_reply_falls_back_to_the_file_name() {
    let thumbnail = Bitmap::new(1000, 1414, "thumb".to_string(), vec![1, 2]);
    for title in [None, Some(String::new())] {
        let reply = loaded_reply(
            "a1".to_string(),
            "report.pdf".to_string(),
            title,
            None,
            Some(thumbnail.clone()),
            3,
        );
        match reply {
            GlobalResult::PdfLoaded { id, title, author, thumbnail, page_count } => {
                assert_eq!(id, "a1");
                assert_eq!(title, "report.pdf");
                assert_eq!(author, "");
                assert_eq!(thumbnail.unwrap().uid(), "thumb");
                assert_eq!(page_count, 3);
            },
            _ => panic!("a loaded document is answered with its record"),
        }
    }
}

#[test]
fn image_from_render_packs_the_bytes() {
    let bytes: Vec<u8> = vec![0x10, 0x20, 0x30, 0xff, 0xaa, 0xbb, 0xcc, 0x80];
    let image = image_from_render(2, 1, "uid".to_string(), &bytes);
    assert_eq!(image.width(), 2);
    assert_eq!(image.height(), 1);
    assert_eq!(image.uid(), "uid");
    assert_eq!(image.copy_pixels(), vec![0xff10_2030, 0x80aa_bbcc]);
    let widest = image_from_render(u16::MAX, u16::MAX, "w".to_string(), &[]);
    assert_eq!(widest.width(), 65535);
    assert_eq!(widest.height(), 65535);
    assert!(widest.copy_pixels().is_empty());
}

#[test]
fn pages_are_rendered_a_thousand_pixels_wide() {
    assert_eq!(RENDER_WIDTH, 1000);
}

#[test]
fn a_new_worker_holds_no_document() {
    let worker = PdfiumManager::new();
    assert!(!worker.has_document());
}

#[test]
fn a_page_request_without_a_document_gets_no_answer() {
    let mut worker = PdfiumManager::new();
    assert!(worker.load_pages(0).is_none());
    assert!(worker.load_pages(15).is_none());
    assert!(!worker.has_document());
}

#[test]
fn render_failures_are_told_apart() {
    assert_ne!(RenderFailure::PageUnavailable, RenderFailure::BadDimensions);
    assert_ne!(RenderFailure::BadDimensions, RenderFailure::Backend);
    assert_eq!(RenderFailure::Backend, RenderFailure::Backend);
}

#[test]
fn worker_commands_carry_their_arguments() {
    let load = PdfiumAction::LoadPdf {
        uuid: "a1".to_string(),
        file_name: "a.pdf".to_string(),
        bytes: vec![1, 2, 3],
    };
    assert!(matches!(load, PdfiumAction::LoadPdf { ref bytes, .. } if bytes.len() == 3));
    let pages = PdfiumAction::PageLoadRequested { page_index: 4 };
    assert!(matches!(pages, PdfiumAction::PageLoadRequested { page_index: 4 }));
}

#[test]
fn a_rendered_page_is_kept_after_the_earlier_ones() {
    let mut rendered: Vec<Arc<Page>> = Vec::new();
    let first = Bitmap::new(1000, 1414, "first".to_string(), vec![1]);
    let second = Bitmap::new(1000, 707, "second".to_string(), vec![2]);
    keep_rendered(&mut rendered, 4, Ok(first.clone()));
    keep_rendered(&mut rendered, 7, Ok(second));
    assert_eq!(rendered.len(), 2);
    assert_eq!(rendered[0].index, 4);
    assert!(Arc::ptr_eq(rendered[0].image.as_ref().unwrap(), &first));
    assert_eq!(rendered[1].index, 7);
    assert_eq!(rendered[1].image.as_ref().unwrap().uid(), "second");
}

#[test]
fn a_page_that_failed_is_passed_over() {
    let mut rendered: Vec<Arc<Page>> = Vec::new();
    keep_rendered(&mut rendered, 0, Err(RenderFailure::PageUnavailable));
    assert!(rendered.is_empty());
    keep_rendered(&mut rendered, 1, Ok(Bitmap::new(1000, 1, "kept".to_string(), vec![])));
    keep_rendered(&mut rendered, 2, Err(RenderFailure::BadDimensions));
    keep_rendered(&mut rendered, 3, Err(RenderFailure::Backend));
    assert_eq!(rendered.len(), 1);
    assert_eq!(rendered[0].index, 1);
    assert_eq!(rendered[0].image.as_ref().unwrap().uid(), "kept");
}
