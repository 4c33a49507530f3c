use gophe_rs::{encode_item, EncodeError, GopherItem, Message, Selector, TelnetData};

#[test]
fn selector_with_tab_is_rejected() {
    let item = GopherItem::Directory(Selector("/a\tb"));
    assert_eq!(encode_item(&item, "Label"), Err(EncodeError::InvalidField));
}

#[test]
fn framing_characters_are_rejected_in_every_text() {
    for bad in ["\t", "\r", "\n", "a\tb", "a\rb", "a\nb", "tail\r\n", "\tlead"] {
        assert_eq!(
            encode_item(&GopherItem::TextFile(Selector("/ok")), bad),
            Err(EncodeError::InvalidField)
        );
        assert_eq!(
            encode_item(&GopherItem::TextFile(Selector(bad)), "ok"),
            Err(EncodeError::InvalidField)
        );
        assert_eq!(
            encode_item(&GopherItem::Info(Message(bad)), "ok"),
            Err(EncodeError::InvalidField)
        );
        assert_eq!(
            encode_item(&GopherItem::Error(Message("ok")), bad),
            Err(EncodeError::InvalidField)
        );
        assert_eq!(
            encode_item(&GopherItem::Telnet(TelnetData(bad, 23, "me")), "ok"),
            Err(EncodeError::InvalidField)
        );
        assert_eq!(
            encode_item(&GopherItem::Telnet(TelnetData("host", 23, bad)), "ok"),
            Err(EncodeError::InvalidField)
        );
    }
}

#[test]
fn every_port_that_can_be_held_is_written() {
    for port in [0, 1, 65534, u16::MAX] {
        assert_eq!(
            encode_item(&GopherItem::Telnet(TelnetData("host", port, "me")), "Chat"),
            Ok(format!("8Chat\tme\thost\t{}\r\n", port))
        );
    }
}

#[test]
fn selector_items_leave_host_and_port_empty() {
    let cases = [
        (GopherItem::TextFile(Selector("/a.txt")), "0About\t/a.txt\t\t\r\n"),
        (GopherItem::Directory(Selector("/a.txt")), "1About\t/a.txt\t\t\r\n"),
        (GopherItem::UuFile(Selector("/a.txt")), "6About\t/a.txt\t\t\r\n"),
        (GopherItem::Binary(Selector("/a.txt")), "9About\t/a.txt\t\t\r\n"),
        (GopherItem::Gif(Selector("/a.txt")), "gAbout\t/a.txt\t\t\r\n"),
        (GopherItem::Image(Selector("/a.txt")), "IAbout\t/a.txt\t\t\r\n"),
    ];
    for (item, line) in cases {
        assert_eq!(encode_item(&item, "About"), Ok(String::from(line)));
    }
}

#[test]
fn message_items_leave_three_fields_empty() {
    assert_eq!(
        encode_item(&GopherItem::Info(Message("Welcome")), "Welcome"),
        Ok(String::from("iWelcome\t\t\t\r\n"))
    );
    assert_eq!(
        encode_item(&GopherItem::Error(Message("Not found")), "Not found"),
        Ok(String::from("3Not found\t\t\t\r\n"))
    );
}

#[test]
fn message_line_shows_the_display_text() {
    assert_eq!(
        encode_item(&GopherItem::Info(Message("payload")), "label"),
        Ok(String::from("ilabel\t\t\t\r\n"))
    );
}

#[test]
fn telnet_line_has_login_host_port() {
    assert_eq!(
        encode_item(&GopherItem::Telnet(TelnetData("host.example", 23, "login")), "Chat"),
        Ok(String::from("8Chat\tlogin\thost.example\t23\r\n"))
    );
}

#[test]
fn port_is_written_as_shortest_decimal() {
    for (port, text) in [(0, "0"), (7, "7"), (10, "10"), (70, "70"), (105, "105"), (9999, "9999"), (10000, "10000"), (65535, "65535")] {
        assert_eq!(
            encode_item(&GopherItem::Telnet(TelnetData("h", port, "l")), "t"),
            Ok(format!("8t\tl\th\t{}\r\n", text))
        );
    }
}

#[test]
fn empty_texts_are_written() {
    assert_eq!(
        encode_item(&GopherItem::Directory(Selector("")), ""),
        Ok(String::from("1\t\t\t\r\n"))
    );
    assert_eq!(
        encode_item(&GopherItem::Telnet(TelnetData("", 0, "")), ""),
        Ok(String::from("8\t\t\t0\r\n"))
    );
    assert_eq!(encode_item(&GopherItem::Info(Message("")), ""), Ok(String::from("i\t\t\t\r\n")));
}

#[test]
fn encode_characters_outside_ascii_are_written() {
    assert_eq!(
        encode_item(&GopherItem::Directory(Selector("/döner/🥙")), "Grüße 世界"),
        Ok(String::from("1Grüße 世界\t/döner/🥙\t\t\r\n"))
    );
}

#[test]
fn written_line_starts_with_the_type_character() {
    let items = [
        GopherItem::TextFile(Selector("s")),
        GopherItem::Directory(Selector("s")),
        GopherItem::Error(Message("m")),
        GopherItem::UuFile(Selector("s")),
        GopherItem::Telnet(TelnetData("h", 1, "l")),
        GopherItem::Binary(Selector("s")),
        GopherItem::Gif(Selector("s")),
        GopherItem::Image(Selector("s")),
        GopherItem::Info(Message("m")),
    ];
    for item in items {
        let line = encode_item(&item, "m").unwrap();
        assert_eq!(line.chars().next(), Some(item.to_char()));
        assert!(line.ends_with("\r\n"));
        assert_eq!(line.matches('\t').count(), 3);
    }
}
