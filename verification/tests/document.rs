use errbit_rs::{generate_errbit_xml, ErrbitError};

fn sample(backtrace: Option<Vec<(String, u32, String, String)>>) -> ErrbitError {
    ErrbitError {
        api_key: "K".to_string(),
        environment: "staging".to_string(),
        app_name: "Shop".to_string(),
        version: "1.0".to_string(),
        source_url: "https://shop.example".to_string(),
        node_name: "node-7".to_string(),
        component_name: "Checkout".to_string(),
        exc_class: "IoError".to_string(),
        message: "disk full".to_string(),
        backtrace,
    }
}

fn frame(file: &str, line: u32, function: &str, text: &str) -> (String, u32, String, String) {
    (file.to_string(), line, function.to_string(), text.to_string())
}

const HEAD: &str = "<notice version=\"2.0\">
    <api-key>K</api-key>
    <notifier>
        <name>Shop</name>
        <version>1.0</version>
        <url>https://shop.example</url>
    </notifier>
    <server-environment>
        <environment-name>staging</environment-name>
    </server-environment>
    <request>
        <url></url>
        <component>Checkout</component>
        <cgi-data>
            <var key=\"nodeName\">node-7</var>
            <var key=\"componentName\">Checkout</var>
        </cgi-data>
    </request>
    <error>
        <class>IoError</class><message>disk full</message>
";

const TAIL: &str = "    </error>
        </notice>";

fn count(haystack: &str, needle: &str) -> usize {
    haystack.matches(needle).count()
}

#[test]
fn document_of_a_report_with_one_frame() {
    let report = sample(Some(vec![frame("main.rs", 42, "run", "let x = 1;")]));
    let expected = format!(
        "{}{}{}",
        HEAD,
        "        <backtrace>
            <line method=\"run\" file=\"main.rs\" number=\"42\"/>
        </backtrace>
",
        TAIL
    );
    assert_eq!(generate_errbit_xml(&report), expected);
}

#[test]
fn document_without_a_backtrace_has_no_backtrace_element() {
    let xml = generate_errbit_xml(&sample(None));
    assert_eq!(xml, format!("{}{}", HEAD, TAIL));
    assert_eq!(count(&xml, "<backtrace>"), 0);
    assert_eq!(count(&xml, "<line "), 0);
}

#[test]
fn document_with_an_empty_backtrace_has_no_backtrace_element() {
    let xml = generate_errbit_xml(&sample(Some(Vec::new())));
    assert_eq!(xml, format!("{}{}", HEAD, TAIL));
    assert_eq!(count(&xml, "<backtrace>"), 0);
    assert_eq!(count(&xml, "</backtrace>"), 0);
}

#[test]
fn document_has_one_line_per_frame_in_order() {
    let report = sample(Some(vec![
        frame("a.rs", 1, "first", "one"),
        frame("b.rs", 20, "second", "two"),
        frame("c.rs", 300, "third", "three"),
    ]));
    let xml = generate_errbit_xml(&report);
    assert_eq!(count(&xml, "<line "), 3);
    assert_eq!(count(&xml, "<backtrace>"), 1);
    assert_eq!(count(&xml, "</backtrace>"), 1);
    let first = xml.find("<line method=\"first\" file=\"a.rs\" number=\"1\"/>").unwrap();
    let second = xml.find("<line method=\"second\" file=\"b.rs\" number=\"20\"/>").unwrap();
    let third = xml.find("<line method=\"third\" file=\"c.rs\" number=\"300\"/>").unwrap();
    assert!(xml.find("<backtrace>").unwrap() < first);
    assert!(first < second);
    assert!(second < third);
    assert!(third < xml.find("</backtrace>").unwrap());
    let expected = format!(
        "{}{}{}",
        HEAD,
        "        <backtrace>
            <line method=\"first\" file=\"a.rs\" number=\"1\"/>
            <line method=\"second\" file=\"b.rs\" number=\"20\"/>
            <line method=\"third\" file=\"c.rs\" number=\"300\"/>
        </backtrace>
",
        TAIL
    );
    assert_eq!(xml, expected);
}

#[test]
fn frame_text_is_never_sent() {
    let xml = generate_errbit_xml(&sample(Some(vec![frame("a.rs", 1, "f", "SECRET_SOURCE_TEXT")])));
    assert!(!xml.contains("SECRET_SOURCE_TEXT"));
}

#[test]
fn serializing_twice_gives_the_same_bytes() {
    let report = sample(Some(vec![frame("a.rs", 1, "f", "t"), frame("b.rs", 2, "g", "u")]));
    let once = generate_errbit_xml(&report);
    let twice = generate_errbit_xml(&report);
    assert_eq!(once.as_bytes(), twice.as_bytes());
    let copy = report.clone();
    assert_eq!(generate_errbit_xml(&copy).as_bytes(), once.as_bytes());
}

fn decode(text: &str) -> String {
    text.replace("&lt;", "<")
        .replace("&gt;", ">")
        .replace("&quot;", "\"")
        .replace("&apos;", "'")
        .replace("&amp;", "&")
}

#[test]
fn message_with_markup_characters_stays_inside_its_element() {
    let message = "</message><injected a=\"1\" b='2'>&amp; 1 < 2 > 0";
    let mut report = sample(None);
    report.message = message.to_string();
    let xml = generate_errbit_xml(&report);
    assert_eq!(count(&xml, "<message>"), 1);
    assert_eq!(count(&xml, "</message>"), 1);
    assert_eq!(count(&xml, "<injected"), 0);
    let start = xml.find("<message>").unwrap() + "<message>".len();
    let end = xml.find("</message>").unwrap();
    let inside = &xml[start..end];
    assert_eq!(
        inside,
        "&lt;/message&gt;&lt;injected a=&quot;1&quot; b=&apos;2&apos;&gt;&amp;amp; 1 &lt; 2 &gt; 0"
    );
    assert!(!inside.contains('<'));
    assert!(!inside.contains('>'));
    assert!(!inside.contains('"'));
    assert!(!inside.contains('\''));
    assert_eq!(decode(inside), message);
}

#[test]
fn every_field_is_escaped() {
    let report = ErrbitError {
        api_key: "k<1>".to_string(),
        environment: "e&1".to_string(),
        app_name: "a\"1\"".to_string(),
        version: "v'1'".to_string(),
        source_url: "https://h/?a=1&b=2".to_string(),
        node_name: "n<1".to_string(),
        component_name: "c>1".to_string(),
        exc_class: "x&y".to_string(),
        message: "m<n".to_string(),
        backtrace: Some(vec![frame("f\"1\".rs", 5, "g<T>", "")]),
    };
    let xml = generate_errbit_xml(&report);
    assert!(xml.contains("<api-key>k&lt;1&gt;</api-key>"));
    assert!(xml.contains("<environment-name>e&amp;1</environment-name>"));
    assert!(xml.contains("<name>a&quot;1&quot;</name>"));
    assert!(xml.contains("<version>v&apos;1&apos;</version>"));
    assert!(xml.contains("<url>https://h/?a=1&amp;b=2</url>"));
    assert!(xml.contains("<var key=\"nodeName\">n&lt;1</var>"));
    assert!(xml.contains("<component>c&gt;1</component>"));
    assert!(xml.contains("<var key=\"componentName\">c&gt;1</var>"));
    assert!(xml.contains("<class>x&amp;y</class><message>m&lt;n</message>"));
    assert!(xml.contains("<line method=\"g&lt;T&gt;\" file=\"f&quot;1&quot;.rs\" number=\"5\"/>"));
}

#[test]
fn line_numbers_are_written_in_decimal() {
    let xml = generate_errbit_xml(&sample(Some(vec![
        frame("a.rs", 0, "f", ""),
        frame("a.rs", u32::MAX, "f", ""),
    ])));
    assert!(xml.contains("number=\"0\"/>"));
    assert!(xml.contains("number=\"4294967295\"/>"));
}
