use sap_pipeline::config::LookupConfig;
use sap_pipeline::lookup::EnrichedRow;
use sap_pipeline::lookup::LookupEnricher;
use sap_pipeline::lookup::LookupError;
use sap_pipeline::lookup::LookupResponse;

fn create_test_config() -> LookupConfig {
    LookupConfig {
        enabled: true,
        url: "http://localhost:8080/lookup?part=".to_string(),
        chunk_size: 2,
        cookie: String::new(),
        timeout_secs: 30,
        post_url: "http://localhost:8080/post".to_string(),
    }
}

fn row(plant: &str, delivery: &str, part_no: &str) -> EnrichedRow {
    EnrichedRow {
        plant: plant.to_string(),
        delivery: delivery.to_string(),
        part_no: part_no.to_string(),
        duns: String::new(),
        cof: String::new(),
        country: String::new(),
        shipment: String::new(),
    }
}

#[test]
fn test_dedupe_part_numbers() {
    let config = create_test_config();
    let enricher = LookupEnricher::new(&config).unwrap();

    let rows = vec![
        row("TEST01", "DEL001", "TEST001"),
        row("TEST02", "DEL002", "TEST001"),
        row("TEST03", "DEL003", "TEST002"),
    ];

    let parts = enricher.dedupe_part_numbers(&rows);
    assert_eq!(parts.len(), 2);
    assert!(parts.contains(&"TEST001".to_string()));
    assert!(parts.contains(&"TEST002".to_string()));
}

#[test]
fn test_parse_tsv_with_mixed_separators() {
    let tsv_content = "Plant Delivery                Material\n\tTEST01\t1234567890\t\t987654321\n\tTEST01\t1234567890\t\t456789123\n\tTEST01\t1234567890\t\t789123456\n";

    let config = create_test_config();
    let enricher = LookupEnricher::new(&config).unwrap();

    let rows = enricher.parse_tsv_file(tsv_content);

    assert_eq!(rows.len(), 3);

    assert_eq!(rows[0].plant, "TEST01");
    assert_eq!(rows[0].delivery, "1234567890");
    assert_eq!(rows[0].part_no, "987654321");

    assert_eq!(rows[1].plant, "TEST01");
    assert_eq!(rows[1].delivery, "1234567890");
    assert_eq!(rows[1].part_no, "456789123");

    assert_eq!(rows[2].plant, "TEST01");
    assert_eq!(rows[2].delivery, "1234567890");
    assert_eq!(rows[2].part_no, "789123456");
}

#[test]
fn test_parse_tsv_with_leading_tabs() {
    let tsv_content = "Plant\tDelivery\tMaterial\n\tTEST01\t1234567890\t987654321\n\tTEST01\t1234567890\t456789123\n";

    let config = create_test_config();
    let enricher = LookupEnricher::new(&config).unwrap();

    let rows = enricher.parse_tsv_file(tsv_content);

    assert_eq!(rows.len(), 2);

    assert_eq!(rows[0].plant, "TEST01");
    assert_eq!(rows[0].delivery, "1234567890");
    assert_eq!(rows[0].part_no, "987654321");

    assert_eq!(rows[1].plant, "TEST01");
    assert_eq!(rows[1].delivery, "1234567890");
    assert_eq!(rows[1].part_no, "456789123");
}

#[test]
fn test_merge_lookup_data() {
    let config = create_test_config();
    let enricher = LookupEnricher::new(&config).unwrap();

    let rows = vec![row("TEST01", "DEL001", "TEST001"), row("TEST02", "DEL002", "TEST002")];

    let lookup_data = vec![(
        "TEST001".to_string(),
        LookupResponse {
            duns: "987654321".to_string(),
            cof: "TEST".to_string(),
            country: "Test Country".to_string(),
        },
    )];

    let enriched = enricher.merge_lookup_data(rows, &lookup_data);

    assert_eq!(enriched[0].duns, "987654321");
    assert_eq!(enriched[0].cof, "TEST");
    assert_eq!(enriched[0].country, "Test Country");
    assert_eq!(enriched[1].duns, ""); // No lookup data for TEST002
}

#[test]
fn test_merge_keeps_row_count_and_order() {
    let config = create_test_config();
    let enricher = LookupEnricher::new(&config).unwrap();
    let rows = vec![
        row("P1", "D1", "A"),
        row("P2", "D2", ""),
        row("P3", "D3", "B"),
        row("P4", "D4", "A"),
    ];
    let lookup_data = vec![(
        "A".to_string(),
        LookupResponse {
            duns: "d-a".to_string(),
            cof: "c-a".to_string(),
            country: "US".to_string(),
        },
    )];
    let merged = enricher.merge_lookup_data(rows, &lookup_data);
    assert_eq!(merged.len(), 4);
    assert_eq!(merged[0].duns, "d-a");
    assert_eq!(merged[1].duns, "");
    assert_eq!(merged[2].duns, "");
    assert_eq!(merged[3].duns, "d-a");
    assert_eq!(merged[0].plant, "P1");
    assert_eq!(merged[3].delivery, "D4");
}

#[test]
fn test_dual_schema_object_and_array_agree() {
    let config = create_test_config();
    let enricher = LookupEnricher::new(&config).unwrap();

    let object_shaped = "{\"123\":{\"duns\":\"d1\",\"cof\":\"c1\",\"country\":\"US\"}}";
    let array_shaped = "[{\"part\":\"123\",\"duns\":\"d1\",\"cof\":\"c1\",\"country\":\"US\"}]";

    let from_object = enricher.parse_lookup_response(object_shaped).unwrap();
    let from_array = enricher.parse_lookup_response(array_shaped).unwrap();

    let rows = vec![row("PLT", "DEL", "123")];
    let merged_object = enricher.merge_lookup_data(rows.clone(), &from_object);
    let merged_array = enricher.merge_lookup_data(rows, &from_array);

    assert_eq!(merged_object.len(), 1);
    assert_eq!(merged_array.len(), 1);
    assert_eq!(merged_object[0].duns, "d1");
    assert_eq!(merged_array[0].duns, "d1");
    assert_eq!(merged_object[0].cof, merged_array[0].cof);
    assert_eq!(merged_object[0].country, merged_array[0].country);
    assert_eq!(merged_object[0].cof, "c1");
    assert_eq!(merged_object[0].country, "US");
}

#[test]
fn test_array_response_key_aliases_and_defaults() {
    let config = create_test_config();
    let enricher = LookupEnricher::new(&config).unwrap();

    let body = "[{\"part_no\":\"77\",\"duns\":\"d77\"},{\"material\":\"88\",\"duns\":\"d88\",\"country\":\"DE\"},{\"noise\":true}]";
    let records = enricher.parse_lookup_response(body).unwrap();
    assert_eq!(records.len(), 2);
    assert_eq!(records[0].0, "77");
    assert_eq!(records[0].1.duns, "d77");
    assert_eq!(records[0].1.cof, "");
    assert_eq!(records[0].1.country, "");
    assert_eq!(records[1].0, "88");
    assert_eq!(records[1].1.country, "DE");
}

#[test]
fn test_empty_array_response_is_no_data_not_error() {
    let config = create_test_config();
    let enricher = LookupEnricher::new(&config).unwrap();
    let records = enricher.parse_lookup_response("[]").unwrap();
    assert_eq!(records.len(), 0);
}

#[test]
fn test_malformed_response_is_error() {
    let config = create_test_config();
    let enricher = LookupEnricher::new(&config).unwrap();
    assert_eq!(
        enricher.parse_lookup_response("not json at all"),
        Err(LookupError::MalformedResponse)
    );
    // An object whose entry lacks the required string fields fails, as a
    // typed parse of it would.
    assert_eq!(
        enricher.parse_lookup_response("{\"123\":{\"duns\":\"d1\"}}"),
        Err(LookupError::MalformedResponse)
    );
    // A bare scalar is neither tolerated shape.
    assert_eq!(
        enricher.parse_lookup_response("42"),
        Err(LookupError::MalformedResponse)
    );
}

#[test]
fn test_chunk_parts_bounds_and_order() {
    let config = create_test_config(); // chunk_size 2
    let enricher = LookupEnricher::new(&config).unwrap();
    let parts: Vec<String> =
        vec!["a".to_string(), "b".to_string(), "c".to_string(), "d".to_string(), "e".to_string()];
    let chunks = enricher.chunk_parts(&parts);
    assert_eq!(chunks.len(), 3);
    assert_eq!(chunks[0], vec!["a".to_string(), "b".to_string()]);
    assert_eq!(chunks[1], vec!["c".to_string(), "d".to_string()]);
    assert_eq!(chunks[2], vec!["e".to_string()]);
}

#[test]
fn test_build_chunk_url_encodes_separators() {
    let config = create_test_config();
    let enricher = LookupEnricher::new(&config).unwrap();
    let chunk = vec!["A 1".to_string(), "B/2".to_string()];
    let url = enricher.build_chunk_url(&chunk);
    assert_eq!(url, "http://localhost:8080/lookup?part=A%201%2CB%2F2");
}

#[test]
fn test_parse_tsv_without_header_yields_nothing() {
    let config = create_test_config();
    let enricher = LookupEnricher::new(&config).unwrap();
    let rows = enricher.parse_tsv_file("just\tsome\tdata\nwithout\tany\theader\n");
    assert_eq!(rows.len(), 0);
}

#[test]
fn test_parse_tsv_skips_short_and_blank_lines() {
    let config = create_test_config();
    let enricher = LookupEnricher::new(&config).unwrap();
    let content = "PLANT and DELIVERY and MATERIAL\n\n\tonly\ttwo\nA\tB\tC\n";
    let rows = enricher.parse_tsv_file(content);
    // The blank line and the two-column line are skipped.
    assert_eq!(rows.len(), 1);
    assert_eq!(rows[0].plant, "A");
    assert_eq!(rows[0].delivery, "B");
    assert_eq!(rows[0].part_no, "C");
}
