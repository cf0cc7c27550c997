use openapi_mcp::gmail::{
    create_email_message_with, format_email_for_display, validate_email, EmailAttachment,
    EmailContent, GmailMessage, MessageHeader, MessagePayload, SendEmailArgs,
};
use openapi_mcp::telegram::{get_unique_filename, parse_telegram_url, unique_filename_with};

fn s(x: &str) -> String {
    x.to_string()
}

fn plain_args(to: Vec<&str>) -> SendEmailArgs {
    SendEmailArgs {
        to: to.into_iter().map(s).collect(),
        subject: s("Hi"),
        body: s("Hello"),
        html_body: None,
        mime_type: None,
        cc: None,
        bcc: None,
        thread_id: None,
        in_reply_to: None,
    }
}

#[test]
fn address_validation_follows_the_grammar() {
    assert!(validate_email("a@b.co"));
    assert!(validate_email("first.last@sub.example.com"));
    assert!(!validate_email("a b@c.d"));
    assert!(!validate_email("a@b"));
    assert!(!validate_email("@b.c"));
    assert!(!validate_email("a@.c"));
    assert!(!validate_email("a@b."));
    assert!(!validate_email("a@@b.c"));
    assert!(!validate_email(""));
}

#[test]
fn plain_text_message_is_assembled_exactly() {
    let msg = create_email_message_with(&plain_args(vec!["a@b.co"]), "B").unwrap();
    assert_eq!(
        msg,
        "From: me\r\nTo: a@b.co\r\nSubject: Hi\r\nMIME-Version: 1.0\r\n\
         Content-Type: text/plain; charset=UTF-8\r\nContent-Transfer-Encoding: 7bit\r\n\r\nHello"
    );
}

#[test]
fn html_message_under_a_rich_type_becomes_multipart() {
    let mut args = plain_args(vec!["a@b.co"]);
    args.html_body = Some(s("<b>Hello</b>"));
    args.mime_type = Some(s("text/html"));
    let msg = create_email_message_with(&args, "B").unwrap();
    assert_eq!(
        msg,
        "From: me\r\nTo: a@b.co\r\nSubject: Hi\r\nMIME-Version: 1.0\r\n\
         Content-Type: multipart/alternative; boundary=\"B\"\r\n\r\n\
         --B\r\nContent-Type: text/plain; charset=UTF-8\r\nContent-Transfer-Encoding: 7bit\r\n\r\nHello\r\n\r\n\
         --B\r\nContent-Type: text/html; charset=UTF-8\r\nContent-Transfer-Encoding: 7bit\r\n\r\n<b>Hello</b>\r\n\r\n\
         --B--"
    );
}

#[test]
fn copies_and_threading_headers_are_included() {
    let mut args = plain_args(vec!["a@b.co", "c@d.ee"]);
    args.cc = Some(vec![s("e@f.gg")]);
    args.in_reply_to = Some(s("<msg-1>"));
    let msg = create_email_message_with(&args, "B").unwrap();
    assert!(msg.starts_with("From: me\r\nTo: a@b.co, c@d.ee\r\nCc: e@f.gg\r\n"));
    assert!(msg.contains("In-Reply-To: <msg-1>\r\nReferences: <msg-1>\r\n"));
}

#[test]
fn first_invalid_recipient_is_the_error() {
    let mut args = plain_args(vec!["good@ok.co", "bad"]);
    assert_eq!(create_email_message_with(&args, "B").unwrap_err(), "bad");
    args = plain_args(vec!["good@ok.co"]);
    args.bcc = Some(vec![s("also bad@x.y")]);
    assert_eq!(create_email_message_with(&args, "B").unwrap_err(), "also bad@x.y");
}

#[test]
fn saved_names_splice_the_marker_before_the_extension() {
    assert_eq!(unique_filename_with(Some("photo.png"), 1, None, "u1"), "photo_u1.png");
    assert_eq!(
        unique_filename_with(Some("archive.tar.gz"), 1, None, "u"),
        "archive.tar_u.gz"
    );
    assert_eq!(unique_filename_with(Some(".hidden"), 1, None, "u"), ".hidden_u");
    assert_eq!(unique_filename_with(Some("noext"), 1, None, "u"), "noext_u");
    assert_eq!(unique_filename_with(Some("dir/file.txt"), 1, None, "u"), "file_u.txt");
    assert_eq!(unique_filename_with(Some("dir/"), 1, None, "u"), "dir_u");
    assert_eq!(unique_filename_with(Some("a/.."), 1, None, "u"), "download_u");
    assert_eq!(
        unique_filename_with(None, 42, Some("image/png"), "u"),
        "download_42_u.png"
    );
    assert_eq!(unique_filename_with(None, -3, None, "u"), "download_-3_u.bin");
    assert_eq!(unique_filename_with(None, 7, Some("weird"), "u"), "download_7_u.bin");
}

#[test]
fn message_links_parse_into_entity_and_number() {
    assert_eq!(
        parse_telegram_url("https://t.me/somebody/42"),
        Ok((s("somebody"), 42))
    );
    assert_eq!(parse_telegram_url("t.me/somebody/42/"), Ok((s("somebody"), 42)));
    assert_eq!(
        parse_telegram_url("http://telegram.me/c/123456/789"),
        Ok((s("123456"), 789))
    );
    assert_eq!(
        parse_telegram_url("https://example.com/a/1"),
        Err(s("Invalid Telegram URL format"))
    );
    assert_eq!(
        parse_telegram_url("t.me/some body/1"),
        Err(s("Invalid Telegram URL format"))
    );
    assert_eq!(
        parse_telegram_url("t.me/a/9999999999"),
        Err(s("Invalid message ID: too large"))
    );
    assert_eq!(parse_telegram_url("t.me/"), Err(s("Invalid Telegram URL format")));
}

#[test]
fn display_form_collects_headers_body_and_attachments() {
    let message = GmailMessage {
        id: s("m1"),
        thread_id: Some(s("t9")),
        label_ids: None,
        snippet: None,
        payload: Some(MessagePayload {
            part_id: None,
            mime_type: None,
            filename: None,
            headers: Some(vec![
                MessageHeader { name: s("Subject"), value: s("Greetings") },
                MessageHeader { name: s("From"), value: s("a@b.co") },
                MessageHeader { name: s("To"), value: s("c@d.ee") },
                MessageHeader { name: s("Date"), value: s("today") },
            ]),
            body: None,
            parts: None,
        }),
        size_estimate: None,
        history_id: None,
        internal_date: None,
    };
    let content = EmailContent { text: s("body text"), html: String::new() };
    let attachments = vec![EmailAttachment {
        id: s("att"),
        filename: s("report.pdf"),
        mime_type: s("application/pdf"),
        size: 4096,
    }];
    let shown = format_email_for_display(&message, &content, &attachments);
    assert_eq!(
        shown,
        "Thread ID: t9\nSubject: Greetings\nFrom: a@b.co\nTo: c@d.ee\nDate: today\n\n\
         body text\n\nAttachments (1):\n- report.pdf (application/pdf, 4 KB)"
    );
}

#[test]
fn html_only_display_carries_a_note() {
    let message = GmailMessage {
        id: s("m2"),
        thread_id: None,
        label_ids: None,
        snippet: None,
        payload: None,
        size_estimate: None,
        history_id: None,
        internal_date: None,
    };
    let content = EmailContent { text: String::new(), html: s("<p>hi</p>") };
    let shown = format_email_for_display(&message, &content, &vec![]);
    assert_eq!(
        shown,
        "Thread ID: \nSubject: \nFrom: \nTo: \nDate: \n\n\
         [Note: This email is HTML-formatted. Plain text version not available.]\n\n<p>hi</p>"
    );
}

#[test]
fn drawn_names_keep_stem_and_extension() {
    let name = get_unique_filename(Some("photo.png"), 9, None);
    assert!(name.starts_with("photo_"));
    assert!(name.ends_with(".png"));
}
