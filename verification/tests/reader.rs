use unipen::decode::{decode_document, DecodedItem};
use unipen::resolve::splice_file;
use unipen::error::{GrammarKind, TranslationKind, UniPenError, ValidationKind};
use unipen::model::{Component, UniPen};
use unipen::statements::{Keyword, Number, Statement, StatementArgument};

fn chars(s: &str) -> Vec<char> {
    s.chars().collect()
}

/// The dot-keyword that splices another file, spelled out at runtime.
fn splice_keyword() -> String {
    ['I', 'N', 'C', 'L', 'U', 'D', 'E'].iter().collect()
}

fn decode(s: &str) -> Result<Vec<DecodedItem>, UniPenError> {
    decode_document(&chars(s))
}

/// Decodes one file and folds it as the resolver would: a push marker for
/// the file itself, then every plain statement in order.
fn run(text: &str) -> Result<UniPen, UniPenError> {
    let items = decode(text)?;
    let mut b = UniPen::builder();
    b = b.statement(&Statement {
        keyword: Keyword::Inclusion,
        arguments: vec![StatementArgument::String(chars("input"))],
    })?;
    for it in items {
        match it {
            DecodedItem::Plain(st) => {
                b = b.statement(&st)?;
            }
            DecodedItem::Splice(_) => {}
        }
    }
    b.build()
}

#[test]
fn coordinate_order_decodes_two_samples() {
    let doc = run(".COORD X Y T\n.PEN_DOWN 1.0 2.0 0.0 3.0 4.0 10.0\n").unwrap();
    assert_eq!(doc.component_sets.len(), 1);
    let set = &doc.component_sets[0];
    assert_eq!(set.coordinates.len(), 2);
    assert_eq!(set.coordinates[0].x_position, 1_000_000);
    assert_eq!(set.coordinates[0].y_position, 2_000_000);
    assert_eq!(set.coordinates[0].time, 0);
    assert_eq!(set.coordinates[1].x_position, 3_000_000);
    assert_eq!(set.coordinates[1].y_position, 4_000_000);
    assert_eq!(set.coordinates[1].time, 10_000_000);
    assert_eq!(set.components.len(), 1);
    match set.components[0] {
        Component::PenDown(r) => {
            assert_eq!(r.start, 0);
            assert_eq!(r.end, 1);
        }
        _ => panic!("expected a pen-down run"),
    }
}

#[test]
fn pop_without_push_fails_with_translation() {
    let b = UniPen::builder();
    let r = b.statement(&Statement { keyword: Keyword::EndOfInput, arguments: vec![] });
    assert_eq!(
        r.err().unwrap(),
        UniPenError::Translation(TranslationKind::UnbalancedPop)
    );
}

#[test]
fn pen_before_order_fails_with_validation() {
    let b = UniPen::builder();
    let r = b.statement(&Statement {
        keyword: Keyword::PenDown,
        arguments: vec![
            StatementArgument::Number(Number::Integer(1)),
            StatementArgument::Number(Number::Integer(2)),
        ],
    });
    assert_eq!(
        r.err().unwrap(),
        UniPenError::Validation(ValidationKind::MissingCoordinateOrder)
    );
}

#[test]
fn segment_range_resolves_with_bounding_box() {
    let text = ".COORD X Y T\n\
                .PEN_DOWN 0.0 0.0 0.0 1.0 5.0 1.0 2.0 9.0 2.0 3.0 -4.0 3.0 4.0 0.0 4.0\n\
                .SEGMENT CHARACTER 0:1..0:3 OK \"a b\"\n";
    let doc = run(text).unwrap();
    let set = &doc.component_sets[0];
    assert_eq!(set.coordinates.len(), 5);
    assert_eq!(set.segments.len(), 1);
    let seg = &set.segments[0];
    assert_eq!(seg.coordinates.len(), 1);
    assert_eq!(seg.coordinates[0].start, 1);
    assert_eq!(seg.coordinates[0].end, 3);
    assert_eq!(seg.hierarchy, chars("CHARACTER"));
    assert_eq!(seg.label.as_ref().unwrap(), &chars("a b"));
    let bbox = &set.bounding_boxes[0];
    assert_eq!(bbox.x_min, 1_000_000);
    assert_eq!(bbox.x_max, 3_000_000);
    assert_eq!(bbox.y_min, -4_000_000);
    assert_eq!(bbox.y_max, 9_000_000);
}

#[test]
fn unknown_sentinel_resets_metadata_field() {
    let doc = run(".DATA_ID abc\n.DATA_ID ?\n").unwrap();
    assert_eq!(doc.metadata.data_id, None);
    let doc = run(".DATA_ID abc\n").unwrap();
    assert_eq!(doc.metadata.data_id, Some(chars("abc")));
}

#[test]
fn parsing_twice_yields_identical_values() {
    let text = ".VERSION 1.0\n.COORD X Y T\n.PEN_UP 1 2 3\n.COMMENT two words\n";
    let a = decode(text).unwrap();
    let b = decode(text).unwrap();
    let sa: Vec<&Statement> = a
        .iter()
        .filter_map(|it| match it {
            DecodedItem::Plain(st) => Some(st),
            DecodedItem::Splice(_) => None,
        })
        .collect();
    let sb: Vec<&Statement> = b
        .iter()
        .filter_map(|it| match it {
            DecodedItem::Plain(st) => Some(st),
            DecodedItem::Splice(_) => None,
        })
        .collect();
    assert_eq!(sa, sb);
    let da = run(text).unwrap();
    let db = run(text).unwrap();
    assert_eq!(da, db);
}

#[test]
fn version_is_fixed_point() {
    let doc = run(".VERSION 1.5\n").unwrap();
    assert_eq!(doc.metadata.version, Some(1_500_000));
}

#[test]
fn overlong_fraction_is_a_numeral_error() {
    let r = run(".AGE 12.3456789\n");
    assert_eq!(r.err().unwrap(), UniPenError::NumeralParse);
}

#[test]
fn stray_word_in_numeral_schema_is_a_grammar_error() {
    let r = run(".AGE young\n");
    assert_eq!(r.err().unwrap(), UniPenError::Grammar(GrammarKind::BadToken));
}

#[test]
fn unknown_keyword_is_a_grammar_error() {
    let r = decode(".BOGUS 1\n");
    assert_eq!(
        r.err().unwrap(),
        UniPenError::Grammar(GrammarKind::UnknownKeyword)
    );
}

#[test]
fn unterminated_quote_is_a_grammar_error() {
    let r = decode(".SEGMENT A 0 \"oops\n");
    assert_eq!(
        r.err().unwrap(),
        UniPenError::Grammar(GrammarKind::UnterminatedQuote)
    );
}

#[test]
fn leading_text_is_a_grammar_error() {
    let r = decode("junk\n.VERSION 1\n");
    assert_eq!(
        r.err().unwrap(),
        UniPenError::Grammar(GrammarKind::LeadingText)
    );
}

#[test]
fn splice_directive_becomes_its_own_item() {
    let text = format!(".{} \"sub.dat\"\n", splice_keyword());
    let items = decode(&text).unwrap();
    assert_eq!(items.len(), 2);
    match &items[0] {
        DecodedItem::Splice(p) => assert_eq!(p, &chars("sub.dat")),
        DecodedItem::Plain(_) => panic!("expected a splice item"),
    }
    match &items[1] {
        DecodedItem::Plain(st) => assert_eq!(st.keyword, Keyword::EndOfInput),
        DecodedItem::Splice(_) => panic!("expected the end-of-input marker"),
    }
}

#[test]
fn every_decoded_file_ends_in_one_marker() {
    let items = decode(".VERSION 1\n.COMMENT hello\n").unwrap();
    let eoi: Vec<&DecodedItem> = items
        .iter()
        .filter(|it| match it {
            DecodedItem::Plain(st) => st.keyword == Keyword::EndOfInput,
            DecodedItem::Splice(_) => false,
        })
        .collect();
    assert_eq!(eoi.len(), 1);
    match items.last().unwrap() {
        DecodedItem::Plain(st) => assert_eq!(st.keyword, Keyword::EndOfInput),
        DecodedItem::Splice(_) => panic!("expected the end-of-input marker"),
    }
}

#[test]
fn cursor_reconstruction_uses_points_per_second() {
    let doc = run(".COORD X Y\n.POINTS_PER_SECOND 2\n.PEN_DOWN 1 2 3 4\n").unwrap();
    let set = &doc.component_sets[0];
    assert_eq!(set.coordinates[0].time, 0);
    assert_eq!(set.coordinates[1].time, 500_000);
}

#[test]
fn timing_gap_advances_the_cursor() {
    let doc = run(".COORD X Y\n.DT 5.0\n.PEN_UP 1 2\n").unwrap();
    let set = &doc.component_sets[0];
    assert_eq!(set.components.len(), 2);
    match set.components[0] {
        Component::Dt(d) => assert_eq!(d, 5_000_000),
        _ => panic!("expected a timing gap"),
    }
    assert_eq!(set.coordinates[0].time, 5_000_000);
}

#[test]
fn labels_collapse_whitespace_and_decode_escapes() {
    let text = ".COORD X Y T\n.PEN_DOWN 1 2 3\n.SEGMENT WORD 0 \"a  \\t b\\nc\"\n";
    let doc = run(text).unwrap();
    let seg = &doc.component_sets[0].segments[0];
    assert_eq!(seg.label.as_ref().unwrap(), &chars("a \t b\nc"));
}

#[test]
fn missing_component_is_rejected_at_finalization() {
    let r = run(".COORD X Y T\n.PEN_DOWN 1 2 3\n.SEGMENT WORD 7\n");
    assert_eq!(
        r.err().unwrap(),
        UniPenError::Validation(ValidationKind::NoSuchComponent)
    );
}

#[test]
fn inverted_segment_range_is_rejected() {
    let r = run(".COORD X Y T\n.PEN_DOWN 1 2 3 4 5 6\n.SEGMENT WORD 0:1..0:0\n");
    assert_eq!(
        r.err().unwrap(),
        UniPenError::Validation(ValidationKind::InvertedRange)
    );
}

#[test]
fn integer_truncation_saturates() {
    assert_eq!(Number::Decimal(1_500_000).truncated(), 1);
    assert_eq!(Number::Decimal(-1_500_000).truncated(), -1);
    assert_eq!(Number::Integer(7).micros(), 7_000_000);
}

#[test]
fn cursor_resets_when_a_splice_begins_a_new_sample_set() {
    // The first file's timing gap advances the cursor; the splice boundary
    // retires that set, and the next set's times start again at zero.
    let items = decode(".COORD X Y\n.DT 5.0\n.PEN_UP 1 2\n").unwrap();
    let mut b = UniPen::builder();
    b = b
        .statement(&Statement {
            keyword: Keyword::Inclusion,
            arguments: vec![StatementArgument::String(chars("first"))],
        })
        .unwrap();
    for it in items {
        if let DecodedItem::Plain(st) = it {
            b = b.statement(&st).unwrap();
        }
    }
    b = b
        .statement(&Statement {
            keyword: Keyword::Inclusion,
            arguments: vec![StatementArgument::String(chars("second"))],
        })
        .unwrap();
    let items = decode(".PEN_DOWN 3 4\n").unwrap();
    for it in items {
        if let DecodedItem::Plain(st) = it {
            b = b.statement(&st).unwrap();
        }
    }
    let doc = b.build().unwrap();
    assert_eq!(doc.component_sets.len(), 2);
    assert_eq!(doc.component_sets[0].coordinates[0].time, 5_000_000);
    assert_eq!(doc.component_sets[1].coordinates[0].time, 0);
}

#[test]
fn spliced_stream_is_bracketed_and_balanced() {
    // One nested directive: the flattened stream has two push and two pop
    // markers, and no prefix pops more files than it has pushed.
    let inner = decode(".PEN_UP 1 2 3\n").unwrap();
    let inner_stream = splice_file(&chars("b.dat"), &inner, &vec![]);
    let outer_text = format!(
        ".COORD X Y T\n.{} \"b.dat\"\n.COMMENT tail\n",
        splice_keyword()
    );
    let outer = decode(&outer_text).unwrap();
    let stream = splice_file(&chars("a.dat"), &outer, &vec![inner_stream]);
    let pushes = stream
        .iter()
        .filter(|st| st.keyword == Keyword::Inclusion)
        .count();
    let pops = stream
        .iter()
        .filter(|st| st.keyword == Keyword::EndOfInput)
        .count();
    assert_eq!(pushes, 2);
    assert_eq!(pops, 2);
    let mut depth: i64 = 0;
    for st in &stream {
        if st.keyword == Keyword::Inclusion {
            depth += 1;
        }
        if st.keyword == Keyword::EndOfInput {
            depth -= 1;
        }
        assert!(depth >= 0);
    }
    assert_eq!(depth, 0);
    // the nested file's statements stand in place of its directive
    assert_eq!(stream[0].keyword, Keyword::Inclusion);
    assert_eq!(stream[1].keyword, Keyword::Coordinate);
    assert_eq!(stream[2].keyword, Keyword::Inclusion);
    assert_eq!(stream[3].keyword, Keyword::PenUp);
    assert_eq!(stream[4].keyword, Keyword::EndOfInput);
    assert_eq!(stream[5].keyword, Keyword::Comment);
    assert_eq!(stream[6].keyword, Keyword::EndOfInput);
}
