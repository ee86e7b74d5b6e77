use lexwisp::attachments::{attachment_check, attachment_slots, MAX_IMAGE_BYTES, MAX_TEXT_BYTES};

#[test]
fn attachments_are_checked_by_type_and_size() {
    assert_eq!(attachment_check("shot.PNG", "PNG", MAX_IMAGE_BYTES), Ok(Some("image/png")));
    assert_eq!(attachment_check("a.jpeg", "jpeg", 10), Ok(Some("image/jpeg")));
    assert_eq!(attachment_check("notes.md", "md", MAX_TEXT_BYTES), Ok(None));
    assert_eq!(
        attachment_check("notes.md", "md", MAX_TEXT_BYTES + 1),
        Err("“notes.md” is too large. Images are limited to 8 MiB and text files to 512 KiB.".to_string())
    );
    assert_eq!(
        attachment_check("big.gif", "gif", MAX_IMAGE_BYTES + 1),
        Err("“big.gif” is too large. Images are limited to 8 MiB and text files to 512 KiB.".to_string())
    );
    assert_eq!(
        attachment_check("doc.pdf", "pdf", 1),
        Err("“doc.pdf” isn’t supported yet. Attach an image, Markdown, text, or code file.".to_string())
    );
    assert_eq!(attachment_check("", "txt", 1), Err("The selected file has no usable name.".to_string()));
}

#[test]
fn a_message_takes_at_most_eight_attachments() {
    assert_eq!(attachment_slots(0), 8);
    assert_eq!(attachment_slots(5), 3);
    assert_eq!(attachment_slots(8), 0);
    assert_eq!(attachment_slots(12), 0);
}
