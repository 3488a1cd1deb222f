use tether_quart::components::plots::{plot_id_string, PlotComponent, PlotVariable, PlotsComponent};

fn pairs(p: &PlotsComponent) -> Vec<(PlotVariable, PlotVariable)> {
    p.plots.iter().map(|c| (c.x_var, c.y_var)).collect()
}

fn ids(p: &PlotsComponent) -> Vec<String> {
    p.plots.iter().map(|c| c.id_source.clone()).collect()
}

fn add(p: &mut PlotsComponent, x: PlotVariable, y: PlotVariable) {
    p.new_plot_x = x;
    p.new_plot_y = y;
    p.show_add_modal = true;
    p.confirm_add();
}

#[test]
fn variable_names() {
    assert_eq!(PlotVariable::T.as_str(), "t");
    assert_eq!(PlotVariable::V.as_str(), "v");
    assert_eq!(PlotVariable::L.as_str(), "l");
    assert_eq!(PlotVariable::Omega.as_str(), "omega");
    assert_eq!(PlotVariable::Theta.as_str(), "theta");
    assert_eq!(PlotVariable::Tension.as_str(), "tension");
    assert_eq!(PlotVariable::HUsed.as_str(), "h_used");
    assert_eq!(PlotVariable::ALL.len(), 7);
    assert_eq!(PlotVariable::ALL[0], PlotVariable::T);
    assert_eq!(PlotVariable::ALL[6], PlotVariable::HUsed);
}

#[test]
fn title_and_file_name() {
    let p = PlotComponent {
        id_source: "plot_1".to_string(),
        x_var: PlotVariable::T,
        y_var: PlotVariable::Omega,
    };
    assert_eq!(p.title(), "omega(t)");
    assert_eq!(p.suggested_file_name(), "omega(t).png");
}

#[test]
fn plot_ids() {
    assert_eq!(plot_id_string(0), "plot_0");
    assert_eq!(plot_id_string(1), "plot_1");
    assert_eq!(plot_id_string(10), "plot_10");
    assert_eq!(plot_id_string(907), "plot_907");
    assert_eq!(plot_id_string(usize::MAX), format!("plot_{}", usize::MAX));
}

#[test]
fn default_plot_list() {
    let p = PlotsComponent::default();
    assert_eq!(pairs(&p), vec![(PlotVariable::T, PlotVariable::L)]);
    assert_eq!(ids(&p), vec!["plot_1".to_string()]);
    assert_eq!(p.plot_counter, 1);
    assert!(!p.show_add_modal);
    assert_eq!(p.new_plot_x, PlotVariable::T);
    assert_eq!(p.new_plot_y, PlotVariable::Tension);
    assert!(p.export_error_message.is_none());
    assert!(p.add_error_message.is_none());
}

#[test]
fn adding_numbers_the_plots() {
    let mut p = PlotsComponent::default();
    add(&mut p, PlotVariable::T, PlotVariable::Tension);
    assert!(!p.show_add_modal);
    add(&mut p, PlotVariable::L, PlotVariable::V);
    assert_eq!(ids(&p), vec!["plot_1", "plot_2", "plot_3"]);
    assert_eq!(
        pairs(&p),
        vec![
            (PlotVariable::T, PlotVariable::L),
            (PlotVariable::T, PlotVariable::Tension),
            (PlotVariable::L, PlotVariable::V)
        ]
    );
    assert_eq!(p.plot_counter, 3);
    assert!(p.add_error_message.is_none());
}

#[test]
fn duplicate_plot_is_refused() {
    let mut p = PlotsComponent::default();
    add(&mut p, PlotVariable::T, PlotVariable::L);
    assert_eq!(p.add_error_message.as_deref(), Some("Plot l(t) already exists."));
    assert!(p.show_add_modal);
    assert_eq!(p.plots.len(), 1);
    assert_eq!(p.plot_counter, 1);
}

#[test]
fn ids_stay_fresh_after_deletion() {
    let mut p = PlotsComponent::default();
    add(&mut p, PlotVariable::T, PlotVariable::V);
    p.delete(1);
    add(&mut p, PlotVariable::T, PlotVariable::Theta);
    assert_eq!(ids(&p), vec!["plot_1", "plot_3"]);
    p.delete(0);
    p.delete(0);
    assert!(p.plots.is_empty());
    add(&mut p, PlotVariable::T, PlotVariable::L);
    assert_eq!(ids(&p), vec!["plot_4"]);
}

#[test]
fn delete_out_of_range_does_nothing() {
    let mut p = PlotsComponent::default();
    p.delete(5);
    assert_eq!(p.plots.len(), 1);
}

#[test]
fn move_up_and_down() {
    let mut p = PlotsComponent::default();
    add(&mut p, PlotVariable::T, PlotVariable::V);
    add(&mut p, PlotVariable::T, PlotVariable::Omega);
    p.move_up(2);
    assert_eq!(ids(&p), vec!["plot_1", "plot_3", "plot_2"]);
    p.move_down(1);
    assert_eq!(ids(&p), vec!["plot_1", "plot_2", "plot_3"]);
    p.move_up(0);
    assert_eq!(ids(&p), vec!["plot_1", "plot_2", "plot_3"]);
    p.move_down(2);
    assert_eq!(ids(&p), vec!["plot_1", "plot_2", "plot_3"]);
    p.move_down(0);
    assert_eq!(ids(&p), vec!["plot_2", "plot_1", "plot_3"]);
}

#[test]
fn has_plot_of_finds_pairs() {
    let p = PlotsComponent::default();
    assert!(p.has_plot_of(PlotVariable::T, PlotVariable::L));
    assert!(!p.has_plot_of(PlotVariable::L, PlotVariable::T));
}

#[test]
fn duplicate_at_full_counter_is_still_refused() {
    let mut p = PlotsComponent::default();
    p.plot_counter = usize::MAX;
    add(&mut p, PlotVariable::T, PlotVariable::L);
    assert_eq!(p.add_error_message.as_deref(), Some("Plot l(t) already exists."));
    assert_eq!(p.plot_counter, usize::MAX);
}
