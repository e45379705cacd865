//! The selector of outgoing connections, built from the user's list of filters.
use crate::detour::LayerError;
use crate::filter::{FilterModel, OutgoingFilter, ProtocolFilter};
use crate::filter_set::FilterSet;
use vstd::prelude::*;
use vstd::std_specs::cmp::PartialEqSpec;

verus! {

/// The user's list of filters, as text, and what they are for.
#[derive(Debug)]
pub enum OutgoingFilterConfig {
    /// Connections that match go through the remote pod, all others stay local.
    Remote(Vec<String>),
    /// Connections that match stay local, all others go through the remote pod.
    Local(Vec<String>),
}

impl OutgoingFilterConfig {
    /// The filters, as text.
    pub open spec fn spec_list(self) -> Seq<String> {
        match self {
            OutgoingFilterConfig::Remote(list) => list@,
            OutgoingFilterConfig::Local(list) => list@,
        }
    }
}

/// Holds the filters set up by the user.
#[derive(Debug)]
pub enum OutgoingSelector {
    /// The user set up no filters.
    Unfiltered,
    /// If the address of a connection matches one of these, then the connection goes through the
    /// remote pod.
    Remote(FilterSet),
    /// If the address of a connection matches one of these, then the connection is made from the
    /// local machine.
    Local(FilterSet),
}

/// What an [`OutgoingSelector`] says.
pub enum SelectorModel {
    Unfiltered,
    Remote(Set<FilterModel>),
    Local(Set<FilterModel>),
}

impl View for OutgoingSelector {
    type V = SelectorModel;

    open spec fn view(&self) -> SelectorModel {
        match *self {
            OutgoingSelector::Unfiltered => SelectorModel::Unfiltered,
            OutgoingSelector::Remote(filters) => SelectorModel::Remote(filters@),
            OutgoingSelector::Local(filters) => SelectorModel::Local(filters@),
        }
    }
}

impl SelectorModel {
    /// The filters of the selector.
    pub open spec fn filters(self) -> Set<FilterModel> {
        match self {
            SelectorModel::Unfiltered => Set::empty(),
            SelectorModel::Remote(filters) => filters,
            SelectorModel::Local(filters) => filters,
        }
    }
}

impl Default for OutgoingSelector {
    fn default() -> (selector: Self)
        ensures
            selector == OutgoingSelector::Unfiltered,
    {
        OutgoingSelector::Unfiltered
    }
}

impl Clone for OutgoingSelector {
    fn clone(&self) -> (copy: Self)
        ensures
            copy@ == self@,
    {
        match self {
            OutgoingSelector::Unfiltered => OutgoingSelector::Unfiltered,
            OutgoingSelector::Remote(filters) => OutgoingSelector::Remote(filters.clone()),
            OutgoingSelector::Local(filters) => OutgoingSelector::Local(filters.clone()),
        }
    }
}

impl PartialEq for OutgoingSelector {
    fn eq(&self, other: &Self) -> (same: bool) {
        match (self, other) {
            (OutgoingSelector::Unfiltered, OutgoingSelector::Unfiltered) => true,
            (OutgoingSelector::Remote(left), OutgoingSelector::Remote(right)) => left.equals(right),
            (OutgoingSelector::Local(left), OutgoingSelector::Local(right)) => left.equals(right),
            _ => false,
        }
    }
}

impl vstd::std_specs::cmp::PartialEqSpecImpl for OutgoingSelector {
    open spec fn obeys_eq_spec() -> bool {
        true
    }

    open spec fn eq_spec(&self, other: &Self) -> bool {
        self@ == other@
    }
}

impl Eq for OutgoingSelector {

}

/// What the parser of filters answers for one entry of the user's list.
pub type ParsedFilter = Result<OutgoingFilter, LayerError>;

/// Every entry was understood.
pub open spec fn all_parsed(parsed: Seq<ParsedFilter>) -> bool {
    forall|i: int| 0 <= i < parsed.len() ==> (#[trigger] parsed[i]) is Ok
}

/// The entry at `index` is the first that was not understood, and `error` says why.
pub open spec fn fails_first(parsed: Seq<ParsedFilter>, index: int, error: LayerError) -> bool {
    &&& 0 <= index < parsed.len()
    &&& parsed[index] == Err::<OutgoingFilter, LayerError>(error)
    &&& all_parsed(parsed.take(index))
}

/// The filters among `parsed` that speak of an enabled protocol.
pub open spec fn enabled_filters(
    parsed: Seq<ParsedFilter>,
    enabled_tcp: bool,
    enabled_udp: bool,
) -> Set<FilterModel> {
    Set::new(
        |filter: FilterModel|
            filter.protocol.spec_is_enabled(enabled_tcp, enabled_udp) && exists|i: int|
                0 <= i < parsed.len() && (#[trigger] parsed[i]) is Ok && parsed[i]->Ok_0@ == filter,
    )
}

/// `filters` is what a list with these answers of the parser leaves: the first error, or the set of
/// the filters whose protocol is enabled.
pub open spec fn filters_built(
    parsed: Seq<ParsedFilter>,
    enabled_tcp: bool,
    enabled_udp: bool,
    filters: Result<Set<FilterModel>, LayerError>,
) -> bool {
    match filters {
        Ok(set) => all_parsed(parsed) && set == enabled_filters(parsed, enabled_tcp, enabled_udp),
        Err(error) => exists|i: int| fails_first(parsed, i, error),
    }
}

/// `parsed` holds answers of `parse` for the entries of `list`, in their order, up to the first
/// entry that it did not understand.
pub open spec fn parsed_by<F: Fn(&String) -> ParsedFilter>(
    parse: F,
    list: Seq<String>,
    parsed: Seq<ParsedFilter>,
) -> bool {
    &&& parsed.len() <= list.len()
    &&& forall|i: int|
        0 <= i < parsed.len() ==> call_ensures(parse, (&list[i],), #[trigger] parsed[i])
    &&& parsed.len() < list.len() ==> parsed.len() > 0 && parsed.last() is Err
    &&& forall|i: int| 0 <= i < parsed.len() - 1 ==> (#[trigger] parsed[i]) is Ok
}

/// Collects the filters whose protocol is enabled, each of them once, or gives the first error.
pub fn build_filters(parsed: Vec<ParsedFilter>, enabled_tcp: bool, enabled_udp: bool) -> (filters:
    Result<FilterSet, LayerError>)
    ensures
        filters_built(
            parsed@,
            enabled_tcp,
            enabled_udp,
            match filters {
                Ok(set) => Ok(set@),
                Err(error) => Err(error),
            },
        ),
{
    let ghost answers = parsed@;
    let mut filters = FilterSet::new();
    assert(filters@ =~= enabled_filters(answers.take(0), enabled_tcp, enabled_udp));
    for answer in iter: parsed
        invariant
            iter.seq() == answers,
            all_parsed(answers.take(iter.index())),
            filters@ == enabled_filters(answers.take(iter.index()), enabled_tcp, enabled_udp),
    {
        let ghost index = iter.index();
        let ghost seen = answers.take(index);
        let ghost now = answers.take(index + 1);
        let ghost before = filters@;
        match answer {
            Err(error) => {
                assert(fails_first(answers, index, error));
                return Err(error);
            },
            Ok(filter) => {
                let ghost model = filter@;
                if filter.protocol.is_enabled(enabled_tcp, enabled_udp) {
                    filters.insert(filter);
                }
                proof {
                    assert(now =~= seen.push(answers[index]));
                    assert(now[index] is Ok && now[index]->Ok_0@ == model);
                    assert forall|other: FilterModel| filters@.contains(other)
                        == enabled_filters(now, enabled_tcp, enabled_udp).contains(other) by {
                        if enabled_filters(seen, enabled_tcp, enabled_udp).contains(other) {
                            let i = choose|i: int|
                                0 <= i < seen.len() && (#[trigger] seen[i]) is Ok && seen[i]->Ok_0@
                                    == other;
                            assert(now[i] == seen[i]);
                        }
                        if enabled_filters(now, enabled_tcp, enabled_udp).contains(other) {
                            let i = choose|i: int|
                                0 <= i < now.len() && (#[trigger] now[i]) is Ok && now[i]->Ok_0@
                                    == other;
                            if i < index {
                                assert(seen[i] == now[i]);
                            }
                        }
                    }
                    assert(filters@ =~= enabled_filters(now, enabled_tcp, enabled_udp));
                }
            },
        }
    }
    proof {
        assert(answers.take(answers.len() as int) =~= answers);
    }
    Ok(filters)
}

/// Asks `parse` for each entry of the list in turn, and stops at the first that it does not
/// understand.
fn parse_filters<F: Fn(&String) -> ParsedFilter>(list: &Vec<String>, parse: F) -> (parsed: Vec<
    ParsedFilter,
>)
    requires
        forall|entry: &String| call_requires(parse, (entry,)),
    ensures
        parsed_by(parse, list@, parsed@),
{
    let mut parsed: Vec<ParsedFilter> = Vec::new();
    let mut index: usize = 0;
    while index < list.len()
        invariant
            forall|entry: &String| call_requires(parse, (entry,)),
            index <= list@.len(),
            parsed@.len() == index,
            all_parsed(parsed@),
            forall|i: int|
                0 <= i < index ==> call_ensures(parse, (&list@[i],), #[trigger] parsed@[i]),
        decreases list@.len() - index,
    {
        let answer = parse(&list[index]);
        let failed = answer.is_err();
        parsed.push(answer);
        if failed {
            return parsed;
        }
        index += 1;
    }
    parsed
}

/// The selector with these filters, for the purpose that the user's list has.
pub open spec fn selector_for(
    config: OutgoingFilterConfig,
    filters: Set<FilterModel>,
) -> SelectorModel {
    match config {
        OutgoingFilterConfig::Remote(_) => SelectorModel::Remote(filters),
        OutgoingFilterConfig::Local(_) => SelectorModel::Local(filters),
    }
}

/// `selector` is what the user's list comes to if the parser gives these answers: the first error,
/// or the selector with the filters whose protocol is enabled.
pub open spec fn selector_built(
    config: OutgoingFilterConfig,
    parsed: Seq<ParsedFilter>,
    enabled_tcp: bool,
    enabled_udp: bool,
    selector: Result<OutgoingSelector, LayerError>,
) -> bool {
    match selector {
        Ok(selector) => all_parsed(parsed) && selector@ == selector_for(
            config,
            enabled_filters(parsed, enabled_tcp, enabled_udp),
        ),
        Err(error) => exists|i: int| fails_first(parsed, i, error),
    }
}

impl OutgoingSelector {
    /// Builds the selector from the user's configuration.
    ///
    /// Filters whose protocol is not enabled for outgoing traffic are left out, so that the check
    /// need not be made on every connection, and duplicates count once. `parse` understands the
    /// textual form of a filter; the first entry that it does not understand decides the error. A
    /// list without entries is an error too.
    pub fn try_from<F: Fn(&String) -> ParsedFilter>(
        value: Option<OutgoingFilterConfig>,
        enabled_tcp: bool,
        enabled_udp: bool,
        parse: F,
    ) -> (selector: Result<OutgoingSelector, LayerError>)
        requires
            forall|entry: &String| call_requires(parse, (entry,)),
        ensures
            match value {
                None => selector == Ok::<OutgoingSelector, LayerError>(
                    OutgoingSelector::Unfiltered,
                ),
                Some(config) => if config.spec_list().len() == 0 {
                    selector matches Err(LayerError::MissingConfigValue(message)) && message@
                        == "Outgoing traffic filter cannot be empty!"@
                } else {
                    exists|parsed: Seq<ParsedFilter>| #[trigger]
                        parsed_by(parse, config.spec_list(), parsed) && selector_built(
                            config,
                            parsed,
                            enabled_tcp,
                            enabled_udp,
                            selector,
                        )
                },
            },
    {
        match value {
            None => Ok(OutgoingSelector::Unfiltered),
            Some(OutgoingFilterConfig::Remote(list)) => {
                if list.len() == 0 {
                    return Err(empty_list());
                }
                let parsed = parse_filters(&list, parse);
                match build_filters(parsed, enabled_tcp, enabled_udp) {
                    Ok(filters) => Ok(OutgoingSelector::Remote(filters)),
                    Err(error) => Err(error),
                }
            },
            Some(OutgoingFilterConfig::Local(list)) => {
                if list.len() == 0 {
                    return Err(empty_list());
                }
                let parsed = parse_filters(&list, parse);
                match build_filters(parsed, enabled_tcp, enabled_udp) {
                    Ok(filters) => Ok(OutgoingSelector::Local(filters)),
                    Err(error) => Err(error),
                }
            },
        }
    }
}

/// An entry that says the same as an earlier one adds nothing.
pub proof fn law_duplicates_count_once(
    parsed: Seq<ParsedFilter>,
    index: int,
    entry: ParsedFilter,
    enabled_tcp: bool,
    enabled_udp: bool,
)
    requires
        0 <= index < parsed.len(),
        parsed[index] is Ok,
        entry is Ok,
        entry->Ok_0@ == parsed[index]->Ok_0@,
    ensures
        enabled_filters(parsed.push(entry), enabled_tcp, enabled_udp) == enabled_filters(
            parsed,
            enabled_tcp,
            enabled_udp,
        ),
{
    let more = parsed.push(entry);
    assert forall|filter: FilterModel|
        enabled_filters(more, enabled_tcp, enabled_udp).contains(filter) == enabled_filters(
            parsed,
            enabled_tcp,
            enabled_udp,
        ).contains(filter) by {
        if enabled_filters(parsed, enabled_tcp, enabled_udp).contains(filter) {
            let i = choose|i: int|
                0 <= i < parsed.len() && (#[trigger] parsed[i]) is Ok && parsed[i]->Ok_0@ == filter;
            assert(more[i] == parsed[i]);
        }
        if enabled_filters(more, enabled_tcp, enabled_udp).contains(filter) {
            let i = choose|i: int|
                0 <= i < more.len() && (#[trigger] more[i]) is Ok && more[i]->Ok_0@ == filter;
            if i < parsed.len() {
                assert(parsed[i] == more[i]);
            }
        }
    }
    assert(enabled_filters(more, enabled_tcp, enabled_udp) =~= enabled_filters(
        parsed,
        enabled_tcp,
        enabled_udp,
    ));
}

fn empty_list() -> (error: LayerError)
    ensures
        error matches LayerError::MissingConfigValue(message) && message@
            == "Outgoing traffic filter cannot be empty!"@,
{
    LayerError::MissingConfigValue("Outgoing traffic filter cannot be empty!".to_string())
}

/// Of a list that was understood, every filter for an enabled protocol is kept, whatever the form of
/// its address, and nothing else is. A list of which an entry was not understood gives the error of
/// the first such entry, and a list that was understood gives none.
pub proof fn law_enabled_filters_are_kept(
    parsed: Vec<ParsedFilter>,
    enabled_tcp: bool,
    enabled_udp: bool,
    built: Result<FilterSet, LayerError>,
)
    requires
        call_ensures(build_filters, (parsed, enabled_tcp, enabled_udp), built),
    ensures
        built is Ok <==> forall|i: int| 0 <= i < parsed@.len() ==> (#[trigger] parsed@[i]) is Ok,
        match built {
            Ok(set) => {
                &&& forall|i: int|
                    0 <= i < parsed@.len() && (match (#[trigger] parsed@[i])->Ok_0.protocol {
                        ProtocolFilter::Any => enabled_tcp || enabled_udp,
                        ProtocolFilter::Tcp => enabled_tcp,
                        ProtocolFilter::Udp => enabled_udp,
                    }) ==> set@.contains(parsed@[i]->Ok_0@)
                &&& forall|filter: FilterModel| #[trigger]
                    set@.contains(filter) ==> (exists|i: int|
                        0 <= i < parsed@.len() && (#[trigger] parsed@[i])->Ok_0@ == filter)
                &&& forall|filter: FilterModel| #[trigger]
                    set@.contains(filter) ==> match filter.protocol {
                        ProtocolFilter::Any => enabled_tcp || enabled_udp,
                        ProtocolFilter::Tcp => enabled_tcp,
                        ProtocolFilter::Udp => enabled_udp,
                    }
            },
            Err(error) => exists|i: int|
                {
                    &&& 0 <= i < parsed@.len()
                    &&& (#[trigger] parsed@[i]) == Err::<OutgoingFilter, LayerError>(error)
                    &&& forall|j: int| 0 <= j < i ==> (#[trigger] parsed@[j]) is Ok
                },
        },
{
    if let Err(error) = built {
        let i = choose|i: int| fails_first(parsed@, i, error);
        assert(parsed@[i] is Err);
        assert forall|j: int| 0 <= j < i implies (#[trigger] parsed@[j]) is Ok by {
            assert(parsed@.take(i)[j] is Ok);
        }
    }
}

/// Enabling both protocols keeps every filter, and disabling both keeps none.
pub proof fn law_enabling_protocols(
    parsed: Vec<ParsedFilter>,
    all: FilterSet,
    none: FilterSet,
    tcp: FilterSet,
    udp: FilterSet,
)
    requires
        call_ensures(build_filters, (parsed, true, true), Ok(all)),
        call_ensures(build_filters, (parsed, false, false), Ok(none)),
        call_ensures(build_filters, (parsed, true, false), Ok(tcp)),
        call_ensures(build_filters, (parsed, false, true), Ok(udp)),
    ensures
        forall|i: int| 0 <= i < parsed@.len() ==> all@.contains((#[trigger] parsed@[i])->Ok_0@),
        none@ == Set::<FilterModel>::empty(),
        all@ == tcp@.union(udp@),
{
    assert(none@ =~= Set::<FilterModel>::empty());
    assert(all@ =~= tcp@.union(udp@));
}

proof fn lemma_answers_fill_the_set<F: Fn(&String) -> ParsedFilter>(
    list: Seq<String>,
    enabled_tcp: bool,
    enabled_udp: bool,
    parse: F,
    parsed: Seq<ParsedFilter>,
    set: FilterSet,
)
    requires
        parsed_by(parse, list, parsed),
        all_parsed(parsed),
        set@ == enabled_filters(parsed, enabled_tcp, enabled_udp),
    ensures
        exists|answers: Seq<OutgoingFilter>|
            {
                &&& #[trigger] answers.len() == list.len()
                &&& forall|i: int|
                    0 <= i < answers.len() ==> call_ensures(
                        parse,
                        (&list[i],),
                        Ok(#[trigger] answers[i]),
                    )
                &&& forall|i: int|
                    0 <= i < answers.len() ==> (set@.contains((#[trigger] answers[i])@)
                        <==> match answers[i].protocol {
                        ProtocolFilter::Any => enabled_tcp || enabled_udp,
                        ProtocolFilter::Tcp => enabled_tcp,
                        ProtocolFilter::Udp => enabled_udp,
                    })
                &&& forall|model: FilterModel| #[trigger]
                    set@.contains(model) ==> exists|i: int|
                        0 <= i < answers.len() && (#[trigger] answers[i])@ == model
            },
{
    let answers = Seq::new(parsed.len(), |i: int| parsed[i]->Ok_0);
    assert(parsed.len() == list.len());
    assert forall|i: int| 0 <= i < answers.len() implies call_ensures(
        parse,
        (&list[i],),
        Ok(#[trigger] answers[i]),
    ) by {
        assert(parsed[i] is Ok);
        assert(parsed[i] == Ok::<OutgoingFilter, LayerError>(answers[i]));
        assert(call_ensures(parse, (&list[i],), parsed[i]));
    }
    assert forall|i: int| 0 <= i < answers.len() implies (set@.contains((#[trigger] answers[i])@)
        <==> match answers[i].protocol {
        ProtocolFilter::Any => enabled_tcp || enabled_udp,
        ProtocolFilter::Tcp => enabled_tcp,
        ProtocolFilter::Udp => enabled_udp,
    }) by {
        assert(parsed[i] is Ok);
    }
    assert forall|model: FilterModel| #[trigger] set@.contains(model) implies exists|i: int|
        0 <= i < answers.len() && (#[trigger] answers[i])@ == model by {
        let i = choose|i: int|
            0 <= i < parsed.len() && (#[trigger] parsed[i]) is Ok && parsed[i]->Ok_0@ == model;
        assert(answers[i]@ == model);
    }
    assert(answers.len() == list.len());
}

/// Of a list of filters for remote connections comes a selector for remote connections, and of one
/// for local connections a selector for local ones. Every filter that the parser gave for an entry
/// and that is for an enabled protocol is in it, and nothing else is.
pub proof fn law_selector_holds_the_enabled_filters<F: Fn(&String) -> ParsedFilter>(
    list: Vec<String>,
    enabled_tcp: bool,
    enabled_udp: bool,
    parse: F,
    selector: OutgoingSelector,
)
    requires
        call_ensures(
            OutgoingSelector::try_from::<F>,
            (Some(OutgoingFilterConfig::Remote(list)), enabled_tcp, enabled_udp, parse),
            Ok(selector),
        ),
    ensures
        list@.len() > 0,
        selector matches OutgoingSelector::Remote(set) && exists|answers: Seq<OutgoingFilter>|
            {
                &&& #[trigger] answers.len() == list@.len()
                &&& forall|i: int|
                    0 <= i < answers.len() ==> call_ensures(
                        parse,
                        (&list@[i],),
                        Ok(#[trigger] answers[i]),
                    )
                &&& forall|i: int|
                    0 <= i < answers.len() ==> (set@.contains((#[trigger] answers[i])@)
                        <==> match answers[i].protocol {
                        ProtocolFilter::Any => enabled_tcp || enabled_udp,
                        ProtocolFilter::Tcp => enabled_tcp,
                        ProtocolFilter::Udp => enabled_udp,
                    })
                &&& forall|model: FilterModel| #[trigger]
                    set@.contains(model) ==> exists|i: int|
                        0 <= i < answers.len() && (#[trigger] answers[i])@ == model
            },
{
    let config = OutgoingFilterConfig::Remote(list);
    let parsed = choose|parsed: Seq<ParsedFilter>| #[trigger]
        parsed_by(parse, config.spec_list(), parsed) && selector_built(
            config,
            parsed,
            enabled_tcp,
            enabled_udp,
            Ok(selector),
        );
    if let OutgoingSelector::Remote(set) = selector {
        lemma_answers_fill_the_set(list@, enabled_tcp, enabled_udp, parse, parsed, set);
    }
}

/// The same of a list of filters for local connections.
pub proof fn law_local_selector_holds_the_enabled_filters<F: Fn(&String) -> ParsedFilter>(
    list: Vec<String>,
    enabled_tcp: bool,
    enabled_udp: bool,
    parse: F,
    selector: OutgoingSelector,
)
    requires
        call_ensures(
            OutgoingSelector::try_from::<F>,
            (Some(OutgoingFilterConfig::Local(list)), enabled_tcp, enabled_udp, parse),
            Ok(selector),
        ),
    ensures
        list@.len() > 0,
        selector matches OutgoingSelector::Local(set) && exists|answers: Seq<OutgoingFilter>|
            {
                &&& #[trigger] answers.len() == list@.len()
                &&& forall|i: int|
                    0 <= i < answers.len() ==> call_ensures(
                        parse,
                        (&list@[i],),
                        Ok(#[trigger] answers[i]),
                    )
                &&& forall|i: int|
                    0 <= i < answers.len() ==> (set@.contains((#[trigger] answers[i])@)
                        <==> match answers[i].protocol {
                        ProtocolFilter::Any => enabled_tcp || enabled_udp,
                        ProtocolFilter::Tcp => enabled_tcp,
                        ProtocolFilter::Udp => enabled_udp,
                    })
                &&& forall|model: FilterModel| #[trigger]
                    set@.contains(model) ==> exists|i: int|
                        0 <= i < answers.len() && (#[trigger] answers[i])@ == model
            },
{
    let config = OutgoingFilterConfig::Local(list);
    let parsed = choose|parsed: Seq<ParsedFilter>| #[trigger]
        parsed_by(parse, config.spec_list(), parsed) && selector_built(
            config,
            parsed,
            enabled_tcp,
            enabled_udp,
            Ok(selector),
        );
    if let OutgoingSelector::Local(set) = selector {
        lemma_answers_fill_the_set(list@, enabled_tcp, enabled_udp, parse, parsed, set);
    }
}

/// The selector is refused for two reasons: the list has no entries, or an entry of it was not
/// understood, all entries before it having been. Without a list the selector is unfiltered.
pub proof fn law_selector_is_refused_at_the_first_error<F: Fn(&String) -> ParsedFilter>(
    config: OutgoingFilterConfig,
    list: Vec<String>,
    enabled_tcp: bool,
    enabled_udp: bool,
    parse: F,
    unfiltered: Result<OutgoingSelector, LayerError>,
    selector: Result<OutgoingSelector, LayerError>,
)
    requires
        config == OutgoingFilterConfig::Remote(list) || config == OutgoingFilterConfig::Local(list),
        call_ensures(
            OutgoingSelector::try_from::<F>,
            (None, enabled_tcp, enabled_udp, parse),
            unfiltered,
        ),
        call_ensures(
            OutgoingSelector::try_from::<F>,
            (Some(config), enabled_tcp, enabled_udp, parse),
            selector,
        ),
    ensures
        unfiltered == Ok::<OutgoingSelector, LayerError>(OutgoingSelector::Unfiltered),
        list@.len() == 0 ==> (selector matches Err(LayerError::MissingConfigValue(message))
            && message@ == "Outgoing traffic filter cannot be empty!"@),
        list@.len() > 0 ==> (selector matches Err(error) ==> exists|answers: Seq<OutgoingFilter>|
            {
                &&& #[trigger] answers.len() < list@.len()
                &&& forall|j: int|
                    0 <= j < answers.len() ==> call_ensures(
                        parse,
                        (&list@[j],),
                        Ok(#[trigger] answers[j]),
                    )
                &&& call_ensures(parse, (&list@[answers.len() as int],), Err(error))
            }),
{
    assert(config.spec_list() == list@);
    if list@.len() > 0 {
        if let Err(error) = selector {
            let parsed = choose|parsed: Seq<ParsedFilter>| #[trigger]
                parsed_by(parse, list@, parsed) && selector_built(
                    config,
                    parsed,
                    enabled_tcp,
                    enabled_udp,
                    selector,
                );
            let index = choose|index: int| fails_first(parsed, index, error);
            let answers = Seq::new(index as nat, |j: int| parsed[j]->Ok_0);
            assert forall|j: int| 0 <= j < answers.len() implies call_ensures(
                parse,
                (&list@[j],),
                Ok(#[trigger] answers[j]),
            ) by {
                assert(parsed.take(index)[j] is Ok);
                assert(parsed[j] == Ok::<OutgoingFilter, LayerError>(answers[j]));
                assert(call_ensures(parse, (&list@[j],), parsed[j]));
            }
            assert(parsed[index] == Err::<OutgoingFilter, LayerError>(error));
            assert(call_ensures(parse, (&list@[index],), parsed[index]));
            assert(answers.len() < list@.len());
        }
    }
}

/// What a selector says is what it holds, and two selectors are equal if they are for the same
/// purpose and hold the same filters.
pub proof fn law_models_of_selectors(left: FilterSet, right: FilterSet)
    ensures
        OutgoingSelector::Unfiltered@ == SelectorModel::Unfiltered,
        OutgoingSelector::Remote(left)@ == SelectorModel::Remote(left@),
        OutgoingSelector::Local(left)@ == SelectorModel::Local(left@),
        SelectorModel::Unfiltered.filters() == Set::<FilterModel>::empty(),
        SelectorModel::Remote(left@).filters() == left@,
        SelectorModel::Local(left@).filters() == left@,
        OutgoingSelector::Unfiltered.eq_spec(&OutgoingSelector::Unfiltered),
        OutgoingSelector::Remote(left).eq_spec(&OutgoingSelector::Remote(right)) <==> left@
            == right@,
        OutgoingSelector::Local(left).eq_spec(&OutgoingSelector::Local(right)) <==> left@
            == right@,
        !OutgoingSelector::Unfiltered.eq_spec(&OutgoingSelector::Remote(right)),
        !OutgoingSelector::Unfiltered.eq_spec(&OutgoingSelector::Local(right)),
        !OutgoingSelector::Remote(left).eq_spec(&OutgoingSelector::Local(right)),
        !OutgoingSelector::Remote(left).eq_spec(&OutgoingSelector::Unfiltered),
        !OutgoingSelector::Local(left).eq_spec(&OutgoingSelector::Remote(right)),
        !OutgoingSelector::Local(left).eq_spec(&OutgoingSelector::Unfiltered),
{
}

} // verus!
