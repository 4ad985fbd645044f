use terrain_assets::map_query::{overpass_query, query_body};

#[test]
fn query_body_url_encodes_the_query() {
    assert_eq!(query_body("a b&c=d"), "data=a%20b%26c%3Dd");
    assert_eq!(query_body("x-y_z.~"), "data=x-y_z.~");
    assert_eq!(query_body(""), "data=");
}

#[test]
fn query_names_the_bounding_box() {
    let q = overpass_query("1.5,2,3,4");
    assert!(q.contains("node(1.5,2,3,4);"));
    assert!(q.contains("[out:xml]"));
    assert!(q.trim_end().ends_with("out body;"));
}

#[test]
fn query_matches_the_documented_text() {
    let q = overpass_query("S,W,N,E");
    let expect = "\n        [out:xml]\n        [timeout:60]\n        ;\n        (\n            node(S,W,N,E);\n            <;\n            >;\n\n            //node(w);\n\n            //way(S,W,N,E);\n            //relation(S,W,N,E);\n\n            // select children\n            //node(r);\n            //<;\n            //way(r);\n        );\n        out body;\n    ";
    assert_eq!(q, expect);
    assert_eq!(q.matches("S,W,N,E").count(), 3);
}
