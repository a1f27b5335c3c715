use tbs_template::resolver::{locate, resolve_params, sanitize};
use tbs_template::tbs::{PendingParam, TbsParam, TemplateError};

#[test]
fn locate_finds_single_occurrence() {
    let haystack = vec![9u8, 1, 2, 3, 7];
    let needle = vec![1u8, 2, 3];
    assert_eq!(locate(&needle, &haystack), Ok(1));
}

#[test]
fn locate_tie_break_returns_lower_offset() {
    // The needle occurs at offsets 1 and 4: the first occurrence wins.
    let haystack = vec![0u8, 2, 3, 9, 2, 3];
    let needle = vec![2u8, 3];
    assert_eq!(locate(&needle, &haystack), Ok(1));
}

#[test]
fn locate_missing_needle_is_fatal() {
    let haystack = vec![1u8, 2, 3];
    let needle = vec![4u8, 5];
    assert_eq!(locate(&needle, &haystack), Err(TemplateError::NeedleNotFoundError));
}

#[test]
fn locate_needle_longer_than_haystack() {
    let haystack = vec![1u8, 2];
    let needle = vec![1u8, 2, 3];
    assert_eq!(locate(&needle, &haystack), Err(TemplateError::NeedleNotFoundError));
}

#[test]
fn locate_at_start_and_end() {
    let haystack = vec![5u8, 6, 7];
    assert_eq!(locate(&[5u8], &haystack), Ok(0));
    assert_eq!(locate(&[7u8], &haystack), Ok(2));
    assert_eq!(locate(&[6u8, 7], &haystack), Ok(1));
}

#[test]
fn sanitize_zeroes_exactly_the_range() {
    let mut buf = vec![1u8, 2, 3, 4, 5];
    let p = sanitize(TbsParam::new("F", 1, 3), &mut buf);
    assert_eq!(buf, vec![1u8, 0, 0, 0, 5]);
    assert_eq!(p.offset, 1);
    assert_eq!(p.length, 3);
}

#[test]
fn resolve_single_param() {
    let pending = vec![PendingParam { name: "F", needle: vec![3u8, 4] }];
    let buf = vec![1u8, 2, 3, 4, 5];
    let t = resolve_params(&pending, buf).unwrap();
    assert_eq!(t.bytes(), &vec![1u8, 2, 0, 0, 5]);
    let params = t.params();
    assert_eq!(params.len(), 1);
    assert_eq!(params[0].name, "F");
    assert_eq!(params[0].offset, 2);
    assert_eq!(params[0].length, 2);
}

#[test]
fn resolve_in_declaration_order_with_sanitization_between() {
    // The second needle would also match at offset 0, but that range is
    // resolved first and zeroed, so the second match lands at offset 2.
    let pending = vec![
        PendingParam { name: "A", needle: vec![8u8, 9] },
        PendingParam { name: "B", needle: vec![8u8, 9] },
    ];
    let buf = vec![8u8, 9, 8, 9, 1];
    let t = resolve_params(&pending, buf).unwrap();
    assert_eq!(t.bytes(), &vec![0u8, 0, 0, 0, 1]);
    assert_eq!(t.params()[0].offset, 0);
    assert_eq!(t.params()[1].offset, 2);
}

#[test]
fn resolve_ranges_never_overlap() {
    // After "A" is zeroed, the all-zero needle "B" first matches inside the
    // sanitized range; recording it would overlap, so resolution fails
    // rather than produce a template with overlapping params.
    let pending = vec![
        PendingParam { name: "A", needle: vec![1u8, 2] },
        PendingParam { name: "B", needle: vec![0u8, 0] },
    ];
    let buf = vec![1u8, 2, 5, 6];
    assert_eq!(
        resolve_params(&pending, buf).unwrap_err(),
        TemplateError::NeedleNotFoundError
    );
}

#[test]
fn resolve_missing_needle_yields_no_template() {
    let pending = vec![PendingParam { name: "A", needle: vec![7u8, 7] }];
    let buf = vec![1u8, 2, 3];
    assert_eq!(
        resolve_params(&pending, buf).unwrap_err(),
        TemplateError::NeedleNotFoundError
    );
}

#[test]
fn resolve_empty_needle_is_configuration_error() {
    let pending = vec![PendingParam { name: "A", needle: vec![] }];
    let buf = vec![1u8, 2, 3];
    assert_eq!(
        resolve_params(&pending, buf).unwrap_err(),
        TemplateError::ConfigurationError
    );
}

#[test]
fn resolve_round_trip_restores_input() {
    // Substituting each param's needle back into the sanitized buffer
    // reproduces the input buffer byte for byte.
    let pending = vec![
        PendingParam { name: "A", needle: vec![11u8, 12, 13] },
        PendingParam { name: "B", needle: vec![21u8, 22] },
    ];
    let buf = vec![5u8, 11, 12, 13, 6, 21, 22, 7];
    let t = resolve_params(&pending, buf.clone()).unwrap();
    let mut restored = t.bytes().clone();
    for (i, p) in t.params().iter().enumerate() {
        restored[p.offset..p.offset + p.length].copy_from_slice(&pending[i].needle);
    }
    assert_eq!(restored, buf);
}

#[test]
fn resolve_identical_inputs_give_identical_templates() {
    let pending = vec![
        PendingParam { name: "A", needle: vec![11u8, 12] },
        PendingParam { name: "B", needle: vec![21u8, 22] },
    ];
    let buf = vec![5u8, 11, 12, 6, 21, 22, 7];
    let t1 = resolve_params(&pending, buf.clone()).unwrap();
    let t2 = resolve_params(&pending, buf).unwrap();
    assert_eq!(t1.bytes(), t2.bytes());
    assert_eq!(t1.params(), t2.params());
}

#[test]
fn template_ranges_are_zeroed_and_disjoint() {
    let pending = vec![
        PendingParam { name: "A", needle: vec![11u8, 12, 13] },
        PendingParam { name: "B", needle: vec![21u8, 22] },
    ];
    let buf = vec![5u8, 11, 12, 13, 6, 21, 22, 7];
    let t = resolve_params(&pending, buf).unwrap();
    let params = t.params();
    for p in params.iter() {
        assert!(p.length > 0);
        assert!(p.offset + p.length <= t.bytes().len());
        for k in p.offset..p.offset + p.length {
            assert_eq!(t.bytes()[k], 0);
        }
    }
    for i in 0..params.len() {
        for j in 0..params.len() {
            if i != j {
                let (a, b) = (&params[i], &params[j]);
                assert!(a.offset + a.length <= b.offset || b.offset + b.length <= a.offset);
            }
        }
    }
}

#[test]
fn locate_empty_needle_matches_at_start() {
    let haystack = vec![1u8, 2];
    assert_eq!(locate(&[], &haystack), Ok(0));
}

#[test]
fn resolve_rejects_partial_overlap_with_sanitized_range() {
    // "B" first matches only across the tail of "A"'s zeroed range, so the
    // partially overlapping location is refused.
    let pending = vec![
        PendingParam { name: "A", needle: vec![1u8, 2] },
        PendingParam { name: "B", needle: vec![0u8, 0, 9] },
    ];
    let buf = vec![7u8, 1, 2, 0, 9];
    assert_eq!(
        resolve_params(&pending, buf).unwrap_err(),
        TemplateError::NeedleNotFoundError
    );
}
