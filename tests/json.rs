use jfifdump::{read, Handler, JsonFormat, JsonNode, Rst};

fn keys(node: &JsonNode) -> Vec<&str> {
    match node {
        JsonNode::Object(fields) => fields.iter().map(|(k, _)| k.as_str()).collect(),
        other => panic!("expected an object, got {:?}", other),
    }
}

fn get<'a>(node: &'a JsonNode, key: &str) -> &'a JsonNode {
    match node {
        JsonNode::Object(fields) => match fields.iter().find(|(k, _)| k == key) {
            Some((_, v)) => v,
            None => panic!("no field {}", key),
        },
        other => panic!("expected an object, got {:?}", other),
    }
}

fn num(node: &JsonNode) -> u64 {
    match node {
        JsonNode::Number(n) => *n,
        other => panic!("expected a number, got {:?}", other),
    }
}

fn text(node: &JsonNode) -> &str {
    match node {
        JsonNode::Text(s) => s.as_str(),
        other => panic!("expected a string, got {:?}", other),
    }
}

fn items(node: &JsonNode) -> &Vec<JsonNode> {
    match node {
        JsonNode::Array(items) => items,
        other => panic!("expected an array, got {:?}", other),
    }
}

fn numbers(node: &JsonNode) -> Vec<u64> {
    items(node).iter().map(num).collect()
}

fn document(bytes: Vec<u8>, verbose: bool) -> JsonFormat {
    let mut format = JsonFormat::new(verbose);
    assert_eq!(read(bytes, &mut format), Ok(()));
    format
}

fn image() -> Vec<u8> {
    let mut bytes = vec![0xFF, 0xD8];
    bytes.extend([
        0xFF, 0xE0, 0x00, 0x14, b'J', b'F', b'I', b'F', 0x00, 0x01, 0x02, 0x00, 0x00, 0x48, 0x00,
        0x30, 0x02, 0x02, 0x11, 0x22, 0x33, 0x44,
    ]);
    bytes.extend([0xFF, 0xDB, 0x00, 0x43, 0x10]);
    bytes.extend([3u8; 64]);
    bytes.extend([
        0xFF, 0xC2, 0x00, 0x0B, 0x08, 0x00, 0x20, 0x00, 0x30, 0x01, 0x01, 0x22, 0x00,
    ]);
    bytes.extend([0xFF, 0xDA, 0x00, 0x08, 0x01, 0x01, 0x12, 0x00, 0x3F, 0x21]);
    bytes.extend([0x12, 0xFF, 0x00, 0x34, 0xFF, 0xD9]);
    bytes
}

#[test]
fn json_objects_follow_the_stream() {
    let format = document(image(), false);
    let objects = format.markers();
    assert_eq!(objects.len(), 5);

    let jfif = &objects[0];
    assert_eq!(keys(jfif), vec!["position", "marker", "density", "thumbnail"]);
    assert_eq!(num(get(jfif, "position")), 4);
    assert_eq!(text(get(jfif, "marker")), "App(0x0):JFIF");
    let density = get(jfif, "density");
    assert_eq!(keys(density), vec!["unit", "x", "y"]);
    assert_eq!(text(get(density, "unit")), "pixel");
    assert_eq!(num(get(density, "x")), 72);
    assert_eq!(num(get(density, "y")), 48);
    assert_eq!(keys(get(jfif, "thumbnail")), vec!["width", "height"]);

    let dqt = &objects[1];
    assert_eq!(keys(dqt), vec!["position", "marker", "tables"]);
    assert_eq!(text(get(dqt, "marker")), "DQT");
    let tables = items(get(dqt, "tables"));
    assert_eq!(tables.len(), 1);
    assert_eq!(keys(&tables[0]), vec!["dest", "precision"]);
    assert_eq!(num(get(&tables[0], "precision")), 1);
    assert_eq!(num(get(&tables[0], "dest")), 0);

    let frame = &objects[2];
    assert_eq!(
        keys(frame),
        vec!["position", "marker", "type", "precision", "dimension", "components"]
    );
    assert_eq!(text(get(frame, "type")), "Progressive DCT");
    assert_eq!(num(get(get(frame, "dimension"), "width")), 48);
    assert_eq!(num(get(get(frame, "dimension"), "height")), 32);
    let component = &items(get(frame, "components"))[0];
    assert_eq!(keys(component), vec!["id", "sampling_facor", "quantization_table"]);
    assert_eq!(num(get(get(component, "sampling_facor"), "horizontal")), 2);
    assert_eq!(num(get(get(component, "sampling_facor"), "vertical")), 2);

    let scan = &objects[3];
    assert_eq!(
        keys(scan),
        vec!["position", "marker", "components", "selection", "approximation", "size"]
    );
    assert_eq!(text(get(scan, "marker")), "SOS");
    let component = &items(get(scan, "components"))[0];
    assert_eq!(num(get(component, "dc_table")), 1);
    assert_eq!(num(get(component, "ac_table")), 2);
    assert_eq!(num(get(get(scan, "selection"), "end")), 63);
    assert_eq!(num(get(get(scan, "approximation"), "low")), 2);
    assert_eq!(num(get(get(scan, "approximation"), "high")), 1);
    assert_eq!(num(get(scan, "size")), 4);

    assert_eq!(keys(&objects[4]), vec!["position", "marker"]);
    assert_eq!(text(get(&objects[4], "marker")), "EOI");
}

#[test]
fn verbose_json_holds_raw_bytes() {
    let format = document(image(), true);
    let objects = format.markers();
    let thumbnail = get(&objects[0], "thumbnail");
    assert_eq!(keys(thumbnail), vec!["width", "height", "data"]);
    assert_eq!(numbers(get(thumbnail, "data")), vec![0x11, 0x22, 0x33, 0x44]);
    let table = &items(get(&objects[1], "tables"))[0];
    assert_eq!(numbers(get(table, "data")), vec![3u64; 64]);
    assert_eq!(numbers(get(&objects[3], "data")), vec![0x12, 0xFF, 0x00, 0x34]);
}

#[test]
fn json_of_small_segments() {
    let bytes = vec![
        0xFF, 0xD8, 0xFF, 0xDD, 0x00, 0x04, 0x00, 0x10, 0xFF, 0xFE, 0x00, 0x04, b'h', b'i', 0xFF,
        0xFE, 0x00, 0x04, 0xFF, 0xFE, 0xFF, 0xE1, 0x00, 0x06, b'E', b'x', 0x00, 0x01, 0xFF, 0xF0,
        0x00, 0x03, 0xAB, 0xFF, 0xCC, 0x00, 0x04, 0x12, 0x34, 0xFF, 0xC4, 0x00, 0x14, 0x13, 1, 0,
        0, 0, 0, 0, 0, 0, 0, 0, 0, 0, 0, 0, 0, 0, 0x0A, 0xFF, 0xD5, 0x01, 0x02, 0xFF, 0xD9,
    ];
    let format = document(bytes, true);
    let objects = format.markers();
    assert_eq!(objects.len(), 9);
    assert_eq!(text(get(&objects[0], "marker")), "DRI");
    assert_eq!(num(get(&objects[0], "restart")), 16);
    assert_eq!(keys(&objects[1]), vec!["position", "marker", "text"]);
    assert_eq!(text(get(&objects[1], "text")), "hi");
    assert_eq!(keys(&objects[2]), vec!["position", "marker", "raw"]);
    assert_eq!(numbers(get(&objects[2], "raw")), vec![0xFF, 0xFE]);
    assert_eq!(text(get(&objects[3], "marker")), "App(0x1)");
    assert_eq!(text(get(&objects[3], "start")), "Ex\\x0x00\\x0x01");
    assert_eq!(numbers(get(&objects[3], "data")), vec![b'E' as u64, b'x' as u64, 0, 1]);
    assert_eq!(text(get(&objects[4], "marker")), "Marker(0xF0)");
    assert_eq!(num(get(&objects[4], "size")), 1);
    let param = &items(get(&objects[5], "params"))[0];
    assert_eq!(keys(param), vec!["class", "dest", "param"]);
    assert_eq!((num(get(param, "class")), num(get(param, "dest")), num(get(param, "param"))), (1, 2, 0x34));
    let table = &items(get(&objects[6], "tables"))[0];
    assert_eq!(keys(table), vec!["class", "dest", "code_lengths", "values"]);
    assert_eq!(numbers(get(table, "values")), vec![0x0A]);
    assert_eq!(text(get(&objects[7], "marker")), "RST(5)");
    assert_eq!(num(get(&objects[7], "size")), 2);
    assert_eq!(numbers(get(&objects[7], "data")), vec![1, 2]);
    assert_eq!(num(get(&objects[8], "position")), 67);
}

#[test]
fn json_handler_calls_append_objects() {
    let mut format = JsonFormat::new(false);
    format.handle_rst(7, 0, &Rst { nr: 2, data: vec![1, 2, 3] });
    format.handle_eoi(12, 0);
    let objects = format.markers();
    assert_eq!(objects.len(), 2);
    assert_eq!(keys(&objects[0]), vec!["position", "marker", "size"]);
    assert_eq!(text(get(&objects[0], "marker")), "RST(2)");
    assert_eq!(num(get(&objects[0], "size")), 3);
    assert_eq!(num(get(&objects[1], "position")), 12);
}
