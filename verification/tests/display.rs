use epaper_watch::display::{LutCycle, RefreshLut, RefreshPlan, LUT_CYCLE_LEN};

#[test]
fn schedule_repeats_full_quick_none_none() {
    let mut c = LutCycle::new();
    let mut seen = Vec::new();
    for _ in 0..(2 * LUT_CYCLE_LEN) {
        seen.push(c.next_lut());
    }
    let round = [Some(RefreshLut::Full), Some(RefreshLut::Quick), None, None];
    assert_eq!(&seen[..4], &round);
    assert_eq!(&seen[4..], &round);
}

#[test]
fn render_reports_quick_when_no_lut_is_loaded() {
    let mut c = LutCycle::new();
    assert_eq!(
        c.plan_render(),
        RefreshPlan { load_lut: Some(RefreshLut::Full), refresh: RefreshLut::Full }
    );
    assert_eq!(
        c.plan_render(),
        RefreshPlan { load_lut: Some(RefreshLut::Quick), refresh: RefreshLut::Quick }
    );
    assert_eq!(c.plan_render(), RefreshPlan { load_lut: None, refresh: RefreshLut::Quick });
    assert_eq!(c.plan_render(), RefreshPlan { load_lut: None, refresh: RefreshLut::Quick });
    assert_eq!(c.plan_render().refresh, RefreshLut::Full);
}

#[test]
fn forced_full_render_restarts_schedule() {
    let mut c = LutCycle::new();
    c.plan_render();
    c.plan_render();
    c.plan_render();
    c.reset();
    assert_eq!(
        c.plan_render(),
        RefreshPlan { load_lut: Some(RefreshLut::Full), refresh: RefreshLut::Full }
    );
    assert_eq!(c.plan_render().load_lut, Some(RefreshLut::Quick));
}

#[test]
fn one_full_refresh_in_every_four_renders() {
    let mut c = LutCycle::new();
    let plans: Vec<RefreshPlan> = (0..12).map(|_| c.plan_render()).collect();
    for start in 0..=8 {
        let fulls = plans[start..start + 4]
            .iter()
            .filter(|p| p.refresh == RefreshLut::Full)
            .count();
        assert_eq!(fulls, 1);
    }
}

#[test]
fn each_render_reports_the_lut_loaded_last() {
    let mut c = LutCycle::new();
    c.plan_render();
    c.reset();
    let mut loaded = None;
    for k in 0..10 {
        let plan = c.plan_render();
        if let Some(l) = plan.load_lut {
            loaded = Some(l);
        }
        assert_eq!(Some(plan.refresh), loaded);
        assert_eq!(plan.refresh == RefreshLut::Full, k % 4 == 0);
    }
}
