use gophe_rs::{decode_line, encode_item, GopherItem, Message, Selector, TelnetData};

fn texts() -> Vec<&'static str> {
    vec!["", "a", "Floodgap Home", "/", "/path/to file.txt", "0", "i", " lead and trail ", "Grüße 世界 🥙", "65535", "x\u{b}y\u{c}z"]
}

#[test]
fn selector_items_round_trip() {
    for text in texts() {
        for selector in texts() {
            let s = Selector(selector);
            for item in [
                GopherItem::TextFile(s),
                GopherItem::Directory(s),
                GopherItem::UuFile(s),
                GopherItem::Binary(s),
                GopherItem::Gif(s),
                GopherItem::Image(s),
            ] {
                let line = encode_item(&item, text).unwrap();
                assert_eq!(decode_line(&line), Ok((item, text)));
            }
        }
    }
}

#[test]
fn message_items_round_trip() {
    for text in texts() {
        for item in [GopherItem::Error(Message(text)), GopherItem::Info(Message(text))] {
            let line = encode_item(&item, text).unwrap();
            assert_eq!(decode_line(&line), Ok((item, text)));
        }
    }
}

#[test]
fn telnet_items_round_trip() {
    for text in texts() {
        for host in ["", "host.example", "192.0.2.7", "::1"] {
            for login in ["", "guest", "first last"] {
                for port in [0, 1, 9, 10, 23, 70, 99, 100, 1000, 9999, 10000, 65534, 65535] {
                    let item = GopherItem::Telnet(TelnetData(host, port, login));
                    let line = encode_item(&item, text).unwrap();
                    assert_eq!(decode_line(&line), Ok((item, text)));
                }
            }
        }
    }
}

#[test]
fn every_port_round_trips() {
    for port in 0..=u16::MAX {
        let item = GopherItem::Telnet(TelnetData("h", port, "l"));
        let line = encode_item(&item, "t").unwrap();
        assert_eq!(decode_line(&line), Ok((item, "t")));
    }
}

#[test]
fn message_that_differs_from_the_label_reads_back_as_the_label() {
    let line = encode_item(&GopherItem::Info(Message("payload")), "label").unwrap();
    assert_eq!(decode_line(&line), Ok((GopherItem::Info(Message("label")), "label")));
}

#[test]
fn what_is_read_can_be_written_and_reads_the_same() {
    for line in [
        "1Floodgap Home\t/\tfloodgap.com\t70\r\n",
        "iWelcome to my server\t\terror.host\t1\r\n",
        "8Chat\tlogin\thost.example\t00023\n",
        "0About\t/about.txt",
        "3Not found",
        "gPic\t/p.gif\th\t70\t+\textra\r\n",
    ] {
        let (item, text) = decode_line(line).unwrap();
        let canonical = encode_item(&item, text).unwrap();
        assert_eq!(decode_line(&canonical), Ok((item, text)));
        let again = encode_item(&item, text).unwrap();
        assert_eq!(again, canonical);
    }
}

#[test]
fn canonical_lines_are_fixed_points() {
    for line in [
        "1Floodgap Home\t/\t\t\r\n",
        "iWelcome to my server\t\t\t\r\n",
        "8Chat\tlogin\thost.example\t23\r\n",
    ] {
        let (item, text) = decode_line(line).unwrap();
        assert_eq!(encode_item(&item, text), Ok(String::from(line)));
    }
}
