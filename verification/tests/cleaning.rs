use backend::cleaning::{clean_inputs, proportion_rule, InputRow, ProportionRule, SELECTED_COLUMNS};

fn row(metric: Option<&str>, search_term: Option<&str>) -> InputRow {
    InputRow {
        metric: metric.map(|m| m.to_string()),
        search_term: search_term.map(|s| s.to_string()),
    }
}

/// The rows of the example request of the service, in order.
fn example_rows() -> Vec<InputRow> {
    vec![
        row(Some("lon"), Some("Sugar farm")),
        row(Some("lon"), Some("Manufacturing centre")),
        row(Some("lon"), Some("Distribution centre")),
        row(Some("ownership"), Some("Dairy farm 2")),
        row(Some("ownership"), Some("Sugar farm")),
        row(Some("sga"), None),
        row(Some("cogs"), None),
        row(Some("board_oversight"), None),
        row(Some("annual_ghg_disclosure"), None),
        row(Some("revenue_proportion"), Some("UT30202030AA")),
        row(Some("revenue_proportion"), Some("BRA")),
        row(Some("revenue_proportion"), Some("ARG")),
        row(Some("revenue_proportion"), Some("CHL")),
        row(Some("initial_value"), Some("dairy")),
        row(Some("initial_value"), Some("sugar")),
        row(Some("current_emissions"), None),
        row(Some("ownership"), Some("Dairy farm 1")),
        row(Some("lat"), Some("Dairy farm 2")),
        row(Some("lat"), Some("Sugar farm")),
        row(Some("lat"), Some("Manufacturing centre")),
        row(Some("lat"), Some("Distribution centre")),
        row(Some("lon"), Some("Dairy farm 2")),
        row(Some("ownership"), Some("Manufacturing centre")),
        row(Some("ownership"), Some("Distribution centre")),
    ]
}

#[test]
fn example_request_keeps_the_revenue_proportions() {
    let rows = example_rows();
    let plan = clean_inputs(&rows);
    assert_eq!(plan.kept, vec![9, 10, 11, 12]);
    assert_eq!(
        plan.search_terms,
        vec![
            Some("UT30202030AA".to_string()),
            Some("BRA".to_string()),
            Some("ARG".to_string()),
            Some("CHL".to_string()),
        ]
    );
    assert_eq!(plan.rules.len(), rows.len());
    for (i, rule) in plan.rules.iter().enumerate() {
        let expected = if (9..=12).contains(&i) { ProportionRule::ScaledRevenue } else { ProportionRule::Zero };
        assert_eq!(*rule, expected, "row {i}");
    }
}

#[test]
fn null_metric_gets_zero_and_is_dropped() {
    let rows = vec![row(None, Some("x")), row(Some("revenue_proportion"), None)];
    let plan = clean_inputs(&rows);
    assert_eq!(plan.rules, vec![ProportionRule::Zero, ProportionRule::ScaledRevenue]);
    assert_eq!(plan.kept, vec![1]);
    assert_eq!(plan.search_terms, vec![None]);
}

#[test]
fn metric_must_match_exactly() {
    assert_eq!(proportion_rule(&Some("revenue_proportion".to_string())), ProportionRule::ScaledRevenue);
    assert_eq!(proportion_rule(&Some("Revenue_Proportion".to_string())), ProportionRule::Zero);
    assert_eq!(proportion_rule(&Some("revenue_proportion ".to_string())), ProportionRule::Zero);
    assert_eq!(proportion_rule(&Some(String::new())), ProportionRule::Zero);
    assert_eq!(proportion_rule(&None), ProportionRule::Zero);
}

#[test]
fn empty_table_plans_nothing() {
    let plan = clean_inputs(&Vec::new());
    assert!(plan.rules.is_empty());
    assert!(plan.kept.is_empty());
    assert!(plan.search_terms.is_empty());
}

#[test]
fn kept_rows_are_scaled() {
    let rows = example_rows();
    let plan = clean_inputs(&rows);
    for &k in &plan.kept {
        assert_eq!(plan.rules[k], ProportionRule::ScaledRevenue);
    }
}

#[test]
fn cleaning_is_idempotent() {
    let rows = example_rows();
    let plan = clean_inputs(&rows);
    let kept_rows: Vec<InputRow> = plan
        .kept
        .iter()
        .map(|&k| InputRow { metric: rows[k].metric.clone(), search_term: rows[k].search_term.clone() })
        .collect();
    let again = clean_inputs(&kept_rows);
    assert_eq!(again.kept, (0..kept_rows.len()).collect::<Vec<usize>>());
    assert_eq!(again.search_terms, plan.search_terms);
}

#[test]
fn selected_columns_are_key_term_and_proportion() {
    assert_eq!(SELECTED_COLUMNS, ["pkey", "search_term", "absolute_proportion"]);
}

#[test]
fn other_rows_change_nothing() {
    let rows = example_rows();
    let plan = clean_inputs(&rows);
    let mut more = example_rows();
    more.insert(0, row(Some("lat"), Some("Somewhere")));
    more.insert(11, row(None, Some("BRA")));
    more.push(row(Some("revenue"), Some("XYZ")));
    let plan_more = clean_inputs(&more);
    assert_eq!(plan_more.search_terms, plan.search_terms);
    assert_eq!(plan_more.kept.len(), plan.kept.len());
    for (k, &p) in plan_more.kept.iter().enumerate() {
        assert_eq!(more[p].search_term, rows[plan.kept[k]].search_term);
    }
}
