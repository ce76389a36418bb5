//! A summary of a decoded manifest: its components, permissions, SDK
//! versions and application identity.

use vstd::prelude::*;
use crate::text::chars_of;
use crate::xml_parser::{events_view, EventView, XmlEvent};

verus! {

/// An intent filter of a component: its action and categories.
#[derive(Clone, Debug)]
pub struct IntentFilter {
    pub action: String,
    pub categories: Vec<String>,
}

/// An activity, receiver or service with its intent filters.
#[derive(Clone, Debug)]
pub struct Component {
    pub name: String,
    pub intent_filters: Vec<IntentFilter>,
}

/// What an intent filter holds.
pub struct FilterView {
    pub action: Seq<char>,
    pub categories: Seq<Seq<char>>,
}

/// What a component holds.
pub struct ComponentView {
    pub name: Seq<char>,
    pub filters: Seq<FilterView>,
}

impl View for IntentFilter {
    type V = FilterView;

    open spec fn view(&self) -> FilterView {
        FilterView { action: self.action@, categories: self.categories.deep_view() }
    }
}

/// The filters of a sequence, viewed.
pub open spec fn filters_view(v: Seq<IntentFilter>) -> Seq<FilterView> {
    v.map_values(|f: IntentFilter| f@)
}

impl View for Component {
    type V = ComponentView;

    open spec fn view(&self) -> ComponentView {
        ComponentView { name: self.name@, filters: filters_view(self.intent_filters@) }
    }
}

/// The components of a sequence, viewed.
pub open spec fn components_view(v: Seq<Component>) -> Seq<ComponentView> {
    v.map_values(|c: Component| c@)
}

/// The fields of interest of a manifest.
#[derive(Clone, Debug)]
pub struct ManifestSummary {
    pub activities: Vec<Component>,
    pub receivers: Vec<Component>,
    pub services: Vec<Component>,
    pub providers: Vec<String>,
    pub permissions: Vec<String>,
    pub min_sdk: String,
    pub target_sdk: String,
    pub application_class: String,
    pub application_name: String,
    pub package_name: String,
    pub icon: String,
    /// Components whose end tag has not come yet, innermost last.
    pub open_components: Vec<Component>,
}

/// What a summary holds.
pub struct SummaryView {
    pub activities: Seq<ComponentView>,
    pub receivers: Seq<ComponentView>,
    pub services: Seq<ComponentView>,
    pub providers: Seq<Seq<char>>,
    pub permissions: Seq<Seq<char>>,
    pub min_sdk: Seq<char>,
    pub target_sdk: Seq<char>,
    pub application_class: Seq<char>,
    pub application_name: Seq<char>,
    pub package_name: Seq<char>,
    pub icon: Seq<char>,
    pub open_components: Seq<ComponentView>,
}

impl View for ManifestSummary {
    type V = SummaryView;

    open spec fn view(&self) -> SummaryView {
        SummaryView {
            activities: components_view(self.activities@),
            receivers: components_view(self.receivers@),
            services: components_view(self.services@),
            providers: self.providers.deep_view(),
            permissions: self.permissions.deep_view(),
            min_sdk: self.min_sdk@,
            target_sdk: self.target_sdk@,
            application_class: self.application_class@,
            application_name: self.application_name@,
            package_name: self.package_name@,
            icon: self.icon@,
            open_components: components_view(self.open_components@),
        }
    }
}

/// The value of the first attribute named `key` from position `i` on.
pub open spec fn attr_value(attrs: Seq<(Seq<char>, Seq<char>)>, key: Seq<char>, i: int) -> Option<Seq<char>>
    decreases attrs.len() - i,
{
    if i < 0 || i >= attrs.len() {
        None
    } else if attrs[i].0 == key {
        Some(attrs[i].1)
    } else {
        attr_value(attrs, key, i + 1)
    }
}

/// `old` replaced by the attribute `key` where the element has it.
pub open spec fn set_from(old: Seq<char>, attrs: Seq<(Seq<char>, Seq<char>)>, key: Seq<char>) -> Seq<char> {
    match attr_value(attrs, key, 0) {
        Some(v) => v,
        None => old,
    }
}

/// `list` with the attribute `key` appended where the element has it.
pub open spec fn push_from(list: Seq<Seq<char>>, attrs: Seq<(Seq<char>, Seq<char>)>, key: Seq<char>) -> Seq<Seq<char>> {
    match attr_value(attrs, key, 0) {
        Some(v) => list.push(v),
        None => list,
    }
}

/// A filter after an `action` element (its action set from the attribute
/// `name`) or a `category` element (the attribute `name` appended to its
/// categories).
pub open spec fn filter_update(f: FilterView, attrs: Seq<(Seq<char>, Seq<char>)>, is_action: bool) -> FilterView {
    if is_action {
        FilterView { action: set_from(f.action, attrs, "name"@), ..f }
    } else {
        FilterView { categories: push_from(f.categories, attrs, "name"@), ..f }
    }
}

/// The open components with the last filter of the innermost one updated by
/// `filter_update`, where there is such a filter.
pub open spec fn update_last_filter(open: Seq<ComponentView>, attrs: Seq<(Seq<char>, Seq<char>)>, is_action: bool) -> Seq<ComponentView> {
    if open.len() == 0 || open.last().filters.len() == 0 {
        open
    } else {
        let c = open.last();
        open.drop_last().push(ComponentView { name: c.name, filters: c.filters.drop_last().push(filter_update(c.filters.last(), attrs, is_action)) })
    }
}

/// The summary after one start tag.
pub open spec fn on_start(s: SummaryView, name: Seq<char>, attrs: Seq<(Seq<char>, Seq<char>)>) -> SummaryView {
    if name == "manifest"@ {
        SummaryView { package_name: set_from(s.package_name, attrs, "package"@), ..s }
    } else if name == "application"@ {
        SummaryView {
            application_name: set_from(s.application_name, attrs, "label"@),
            application_class: set_from(s.application_class, attrs, "name"@),
            icon: set_from(s.icon, attrs, "icon"@),
            ..s
        }
    } else if name == "activity"@ || name == "receiver"@ || name == "service"@ {
        let c = ComponentView { name: set_from(Seq::empty(), attrs, "name"@), filters: Seq::empty() };
        SummaryView { open_components: s.open_components.push(c), ..s }
    } else if name == "provider"@ {
        SummaryView { providers: push_from(s.providers, attrs, "name"@), ..s }
    } else if name == "intent-filter"@ {
        if s.open_components.len() == 0 {
            s
        } else {
            let c = s.open_components.last();
            let f = FilterView { action: Seq::empty(), categories: Seq::empty() };
            SummaryView {
                open_components: s.open_components.drop_last().push(ComponentView { name: c.name, filters: c.filters.push(f) }),
                ..s
            }
        }
    } else if name == "uses-sdk"@ {
        SummaryView {
            min_sdk: set_from(s.min_sdk, attrs, "minSdkVersion"@),
            target_sdk: set_from(s.target_sdk, attrs, "targetSdkVersion"@),
            ..s
        }
    } else if name == "uses-permission"@ || name == "permission"@ || name == "permission-tree"@ || name == "permission-group"@ {
        SummaryView { permissions: push_from(s.permissions, attrs, "name"@), ..s }
    } else if name == "action"@ {
        SummaryView { open_components: update_last_filter(s.open_components, attrs, true), ..s }
    } else if name == "category"@ {
        SummaryView { open_components: update_last_filter(s.open_components, attrs, false), ..s }
    } else {
        s
    }
}

/// The summary after one end tag: the end of an activity, receiver or service
/// moves the innermost open component to that list.
pub open spec fn on_end(s: SummaryView, name: Seq<char>) -> SummaryView {
    if s.open_components.len() == 0 {
        s
    } else if name == "activity"@ {
        SummaryView { activities: s.activities.push(s.open_components.last()), open_components: s.open_components.drop_last(), ..s }
    } else if name == "receiver"@ {
        SummaryView { receivers: s.receivers.push(s.open_components.last()), open_components: s.open_components.drop_last(), ..s }
    } else if name == "service"@ {
        SummaryView { services: s.services.push(s.open_components.last()), open_components: s.open_components.drop_last(), ..s }
    } else {
        s
    }
}

/// The summary after one event.
pub open spec fn on_event(s: SummaryView, e: EventView) -> SummaryView {
    match e {
        EventView::Start(name, attrs) => on_start(s, name, attrs),
        EventView::End(name) => on_end(s, name),
    }
}

/// The summary after a sequence of events.
pub open spec fn summarize(s: SummaryView, evs: Seq<EventView>) -> SummaryView
    decreases evs.len(),
{
    if evs.len() == 0 {
        s
    } else {
        on_event(summarize(s, evs.drop_last()), evs.last())
    }
}

/// The summary before any event.
pub open spec fn empty_summary() -> SummaryView {
    SummaryView {
        activities: Seq::empty(),
        receivers: Seq::empty(),
        services: Seq::empty(),
        providers: Seq::empty(),
        permissions: Seq::empty(),
        min_sdk: Seq::empty(),
        target_sdk: Seq::empty(),
        application_class: Seq::empty(),
        application_name: Seq::empty(),
        package_name: Seq::empty(),
        icon: Seq::empty(),
        open_components: Seq::empty(),
    }
}

fn text_is(s: &String, lit: &str) -> (r: bool)
    ensures
        r == (s@ == lit@),
{
    let a = chars_of(s.as_str());
    let b = chars_of(lit);
    if a.len() != b.len() {
        return false;
    }
    let mut i: usize = 0;
    while i < a.len()
        invariant
            a@ == s@,
            b@ == lit@,
            a@.len() == b@.len(),
            i <= a@.len(),
            a@.take(i as int) == b@.take(i as int),
        decreases a@.len() - i,
    {
        if a[i] != b[i] {
            assert(a@[i as int] != b@[i as int]);
            return false;
        }
        assert(a@.take(i + 1) =~= b@.take(i + 1));
        i += 1;
    }
    assert(a@.take(a@.len() as int) =~= a@);
    assert(b@.take(b@.len() as int) =~= b@);
    true
}

fn find_attr(attrs: &Vec<(String, String)>, key: &str) -> (r: Option<String>)
    ensures
        r.deep_view() == attr_value(attrs.deep_view(), key@, 0),
{
    let mut i: usize = 0;
    while i < attrs.len()
        invariant
            i <= attrs@.len(),
            attr_value(attrs.deep_view(), key@, 0) == attr_value(attrs.deep_view(), key@, i as int),
        decreases attrs@.len() - i,
    {
        if text_is(&attrs[i].0, key) {
            return Some(attrs[i].1.clone());
        }
        i += 1;
    }
    None
}

fn set_attr(field: &mut String, attrs: &Vec<(String, String)>, key: &str)
    ensures
        final(field)@ == set_from(old(field)@, attrs.deep_view(), key@),
{
    match find_attr(attrs, key) {
        Some(v) => {
            *field = v;
        },
        None => {},
    }
}

fn push_attr(list: &mut Vec<String>, attrs: &Vec<(String, String)>, key: &str)
    ensures
        final(list).deep_view() == push_from(old(list).deep_view(), attrs.deep_view(), key@),
{
    match find_attr(attrs, key) {
        Some(v) => {
            let ghost before = list.deep_view();
            let ghost vv = v@;
            list.push(v);
            assert(list.deep_view() =~= before.push(vv));
        },
        None => {},
    }
}

impl ManifestSummary {
    /// A summary with no event seen.
    pub fn new() -> (r: Self)
        ensures
            r@ == empty_summary(),
    {
        let r = ManifestSummary {
            activities: Vec::new(),
            receivers: Vec::new(),
            services: Vec::new(),
            providers: Vec::new(),
            permissions: Vec::new(),
            min_sdk: "".to_owned(),
            target_sdk: "".to_owned(),
            application_class: "".to_owned(),
            application_name: "".to_owned(),
            package_name: "".to_owned(),
            icon: "".to_owned(),
            open_components: Vec::new(),
        };
        proof {
            reveal_strlit("");
        }
        assert(r@.activities =~= Seq::<ComponentView>::empty());
        assert(r@.receivers =~= Seq::<ComponentView>::empty());
        assert(r@.services =~= Seq::<ComponentView>::empty());
        assert(r@.providers =~= Seq::<Seq<char>>::empty());
        assert(r@.permissions =~= Seq::<Seq<char>>::empty());
        assert(r@.open_components =~= Seq::<ComponentView>::empty());
        assert(r@.min_sdk =~= Seq::<char>::empty());
        r
    }

    /// Changes the last filter of the innermost open component, where there
    /// is one: sets its action from the attribute `name`, or appends that
    /// attribute to its categories.
    fn update_filter(&mut self, attrs: &Vec<(String, String)>, is_action: bool)
        ensures
            final(self)@ == (SummaryView {
                open_components: update_last_filter(old(self)@.open_components, attrs.deep_view(), is_action),
                ..old(self)@
            }),
    {
        let ghost open0 = components_view(self.open_components@);
        let mut c = match self.open_components.pop() {
            Some(c) => c,
            None => return,
        };
        assert(components_view(self.open_components@) =~= open0.drop_last());
        let mut f = match c.intent_filters.pop() {
            Some(f) => f,
            None => {
                let ghost cv = c@;
                assert(c.intent_filters@.len() == 0);
                self.open_components.push(c);
                assert(components_view(self.open_components@) =~= open0);
                return;
            },
        };
        let ghost fv = f@;
        let ghost filters0 = filters_view(c.intent_filters@);
        if is_action {
            set_attr(&mut f.action, attrs, "name");
        } else {
            push_attr(&mut f.categories, attrs, "name");
        }
        let ghost fv2 = f@;
        assert(fv == open0.last().filters.last());
        assert(filters0 =~= open0.last().filters.drop_last());
        assert(fv2 == filter_update(fv, attrs.deep_view(), is_action));
        c.intent_filters.push(f);
        assert(filters_view(c.intent_filters@) =~= filters0.push(fv2));
        let ghost cv2 = c@;
        self.open_components.push(c);
        assert(components_view(self.open_components@) =~= open0.drop_last().push(cv2));
    }

    /// Takes in one start tag.
    pub fn on_start(&mut self, name: &String, attrs: &Vec<(String, String)>)
        ensures
            final(self)@ == on_start(old(self)@, name@, attrs.deep_view()),
    {
        if text_is(name, "manifest") {
            set_attr(&mut self.package_name, attrs, "package");
        } else if text_is(name, "application") {
            set_attr(&mut self.application_name, attrs, "label");
            set_attr(&mut self.application_class, attrs, "name");
            set_attr(&mut self.icon, attrs, "icon");
        } else if text_is(name, "activity") || text_is(name, "receiver") || text_is(name, "service") {
            let mut component_name = "".to_owned();
            proof {
                reveal_strlit("");
            }
            assert(component_name@ =~= Seq::<char>::empty());
            set_attr(&mut component_name, attrs, "name");
            let c = Component { name: component_name, intent_filters: Vec::new() };
            assert(filters_view(c.intent_filters@) =~= Seq::<FilterView>::empty());
            let ghost open0 = components_view(self.open_components@);
            let ghost cv = c@;
            self.open_components.push(c);
            assert(components_view(self.open_components@) =~= open0.push(cv));
        } else if text_is(name, "provider") {
            push_attr(&mut self.providers, attrs, "name");
        } else if text_is(name, "intent-filter") {
            let ghost open0 = components_view(self.open_components@);
            match self.open_components.pop() {
                None => {},
                Some(mut c) => {
                    assert(components_view(self.open_components@) =~= open0.drop_last());
                    let f = IntentFilter { action: "".to_owned(), categories: Vec::new() };
                    proof {
                        reveal_strlit("");
                    }
                    assert(f@.categories =~= Seq::<Seq<char>>::empty());
                    assert(f@.action =~= Seq::<char>::empty());
                    let ghost filters0 = filters_view(c.intent_filters@);
                    let ghost fv = f@;
                    c.intent_filters.push(f);
                    assert(filters_view(c.intent_filters@) =~= filters0.push(fv));
                    let ghost cv = c@;
                    self.open_components.push(c);
                    assert(components_view(self.open_components@) =~= open0.drop_last().push(cv));
                },
            }
        } else if text_is(name, "uses-sdk") {
            set_attr(&mut self.min_sdk, attrs, "minSdkVersion");
            set_attr(&mut self.target_sdk, attrs, "targetSdkVersion");
        } else if text_is(name, "uses-permission") || text_is(name, "permission") || text_is(name, "permission-tree")
            || text_is(name, "permission-group") {
            push_attr(&mut self.permissions, attrs, "name");
        } else if text_is(name, "action") {
            self.update_filter(attrs, true);
        } else if text_is(name, "category") {
            self.update_filter(attrs, false);
        }
    }

    /// Takes in one end tag.
    pub fn on_end(&mut self, name: &String)
        ensures
            final(self)@ == on_end(old(self)@, name@),
    {
        let ghost open0 = components_view(self.open_components@);
        if self.open_components.len() == 0 {
            return;
        }
        let kind: u8 = if text_is(name, "activity") {
            1
        } else if text_is(name, "receiver") {
            2
        } else if text_is(name, "service") {
            3
        } else {
            0
        };
        if kind == 0 {
            return;
        }
        let c = match self.open_components.pop() {
            Some(c) => c,
            None => return,
        };
        assert(components_view(self.open_components@) =~= open0.drop_last());
        let ghost cv = c@;
        if kind == 1 {
            let ghost before = components_view(self.activities@);
            self.activities.push(c);
            assert(components_view(self.activities@) =~= before.push(cv));
        } else if kind == 2 {
            let ghost before = components_view(self.receivers@);
            self.receivers.push(c);
            assert(components_view(self.receivers@) =~= before.push(cv));
        } else {
            let ghost before = components_view(self.services@);
            self.services.push(c);
            assert(components_view(self.services@) =~= before.push(cv));
        }
    }

    /// The summary of a sequence of element events.
    pub fn from_events(events: &Vec<XmlEvent>) -> (r: Self)
        ensures
            r@ == summarize(empty_summary(), events_view(events@)),
    {
        let mut s = ManifestSummary::new();
        let mut i: usize = 0;
        while i < events.len()
            invariant
                i <= events@.len(),
                s@ == summarize(empty_summary(), events_view(events@).take(i as int)),
            decreases events@.len() - i,
        {
            proof {
                let evs = events_view(events@);
                assert(evs.take(i + 1).drop_last() =~= evs.take(i as int));
            }
            match &events[i] {
                XmlEvent::Start { name, attributes } => s.on_start(name, attributes),
                XmlEvent::End { name } => s.on_end(name),
            }
            i += 1;
        }
        assert(events_view(events@).take(events@.len() as int) =~= events_view(events@));
        s
    }
}

} // verus!
