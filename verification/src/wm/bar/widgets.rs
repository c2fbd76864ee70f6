use vstd::prelude::*;

use crate::config::bar_settings::WidgetSettings;
use crate::error::Error;
use crate::text::{chars_of, push_char, str_eq, trim, trim_string, utf8_decoded, utf8_string};
use crate::wm::bar::format::{format_fold, format_text, FormatState};

verus! {

/// A widget of a widget segment: its settings, its last value and when it was updated.
#[derive(Clone, Debug)]
pub struct Widget {
    pub value: String,
    pub last_update: u64,
    pub settings: WidgetSettings,
}

/// What the placeholders of a widget format stand for: `{icon}`, `{value}` and
/// `{separator}`.
pub open spec fn widget_subst(icon: Seq<char>, value: Seq<char>, separator: Seq<char>) -> spec_fn(Seq<char>) -> Seq<char> {
    |b: Seq<char>|
        if b == "icon"@ {
            icon
        } else if b == "value"@ {
            value
        } else if b == "separator"@ {
            separator
        } else {
            seq![]
        }
}

/// Is a widget last updated at `last_update` (0 for never) due for an update at `now`,
/// with updates every `update_time` seconds? The difference of the two times wraps.
pub open spec fn update_due(now: u64, last_update: u64, update_time: u32) -> bool {
    (if now >= last_update {
        now - last_update
    } else {
        now - last_update + 0x1_0000_0000_0000_0000
    }) >= update_time || last_update == 0
}

impl Widget {
    /// A widget with the given settings, no value and no update yet.
    pub fn new(settings: WidgetSettings) -> (r: Self)
        ensures
            r.value@ == ""@,
            r.last_update == 0,
            r.settings@ == settings@,
    {
        Widget { value: String::from_str(""), last_update: 0, settings }
    }

    /// A copy of the widget.
    pub fn duplicate(&self) -> (r: Self)
        ensures
            r.value@ == self.value@,
            r.last_update == self.last_update,
            r.settings@ == self.settings@,
    {
        Widget { value: self.value.clone(), last_update: self.last_update, settings: self.settings.duplicate() }
    }

    /// Should the widget run its command at the time `now` (in seconds)? It should when
    /// it was never updated or when its update time has passed.
    pub fn needs_update(&self, now: u64) -> (r: bool)
        ensures
            r == update_due(now, self.last_update, self.settings.update_time),
    {
        now.wrapping_sub(self.last_update) >= self.settings.update_time as u64 || self.last_update == 0
    }

    /// Records the output of the widget's command, run at the time `now`: the value is the
    /// output without leading and trailing white space.
    pub fn set_output(&mut self, output: &str, now: u64)
        ensures
            final(self).value@ == trim(output@),
            final(self).last_update == now,
            final(self).settings@ == old(self).settings@,
    {
        self.value = trim_string(output);
        self.last_update = now;
    }

    /// Records the output bytes of the widget's command, run at the time `now`: output
    /// that is UTF-8 text becomes the value without leading and trailing white space;
    /// other output is an error and changes nothing.
    pub fn set_output_bytes(&mut self, output: &[u8], now: u64) -> (r: Result<(), Error>)
        ensures
            match utf8_decoded(output@) {
                Some(s) => r is Ok && final(self).value@ == trim(s) && final(self).last_update == now
                    && final(self).settings@ == old(self).settings@,
                None => r matches Err(Error::InvalidUtf8) && final(self).value@ == old(self).value@
                    && final(self).last_update == old(self).last_update
                    && final(self).settings@ == old(self).settings@,
            },
    {
        match utf8_string(output) {
            Some(text) => {
                self.set_output(text.as_str(), now);
                Ok(())
            },
            None => Err(Error::InvalidUtf8),
        }
    }

    /// The icon and the value with a space between them, and the separator.
    pub fn value_with_separator(&self) -> (r: (String, String))
        ensures
            r.0@ == self.settings.icon@ + " "@ + self.value@,
            r.1@ == self.settings.separator@,
    {
        let mut text = self.settings.icon.clone();
        text.append(" ");
        text.append(self.value.as_str());
        (text, self.settings.separator.clone())
    }

    /// The widget written in its format. The placeholder names are not reset after a
    /// placeholder, so only the first one can be recognised.
    pub fn _value(&self) -> (r: Result<String, Error>)
        ensures
            match format_text(self.settings.format@, false, widget_subst(self.settings.icon@, self.value@, self.settings.separator@)) {
                Some(t) => r matches Ok(x) && x@ == t,
                None => r matches Err(Error::MissingClosingBrace(x)) && x@ == self.settings.format@,
            },
    {
        let ghost subst = widget_subst(self.settings.icon@, self.value@, self.settings.separator@);
        let fmt = self.settings.format.as_str();
        let chars = chars_of(fmt);
        let mut output = String::new();
        let mut in_brace = false;
        let mut brace_value = String::new();
        let mut i: usize = 0;
        proof {
            assert(chars@.subrange(0, 0) =~= Seq::<char>::empty());
        }
        while i < chars.len()
            invariant
                chars@ == fmt@,
                subst == widget_subst(self.settings.icon@, self.value@, self.settings.separator@),
                i <= chars@.len(),
                format_fold(chars@.subrange(0, i as int), false, subst) == (FormatState {
                    in_brace,
                    brace: brace_value@,
                    out: output@,
                }),
            decreases chars@.len() - i,
        {
            let c = chars[i];
            proof {
                assert(chars@.subrange(0, i + 1).drop_last() =~= chars@.subrange(0, i as int));
            }
            if !in_brace {
                if c == '{' {
                    in_brace = true;
                } else {
                    push_char(&mut output, c);
                }
            } else if c == '}' {
                in_brace = false;
                let b = brace_value.as_str();
                if str_eq(b, "icon") {
                    output.append(self.settings.icon.as_str());
                } else if str_eq(b, "value") {
                    output.append(self.value.as_str());
                } else if str_eq(b, "separator") {
                    output.append(self.settings.separator.as_str());
                } else {
                    proof {
                        assert(output@ + Seq::<char>::empty() =~= output@);
                    }
                }
            } else {
                push_char(&mut brace_value, c);
            }
            i = i + 1;
        }
        proof {
            assert(chars@.subrange(0, chars@.len() as int) =~= chars@);
        }
        if in_brace {
            return Err(Error::MissingClosingBrace(self.settings.format.clone()));
        }
        Ok(output)
    }
}

/// The text of a widget segment: each widget's separator, then its icon and value; the
/// last widget's separator closes the text.
pub open spec fn widgets_text(ws: Seq<Widget>) -> Seq<char>
    decreases ws.len(),
{
    if ws.len() == 0 {
        seq![]
    } else {
        widgets_body(ws) + ws.last().settings.separator@
    }
}

/// The widgets' separators, icons and values, without the closing separator.
pub open spec fn widgets_body(ws: Seq<Widget>) -> Seq<char>
    decreases ws.len(),
{
    if ws.len() == 0 {
        seq![]
    } else {
        widgets_body(ws.drop_last()) + ws.last().settings.separator@ + ws.last().settings.icon@ + " "@ + ws.last().value@
    }
}

/// A segment of widgets.
#[derive(Clone, Debug)]
pub struct WidgetSegment {
    pub widgets: Vec<Widget>,
}

impl WidgetSegment {
    /// A segment with one widget per settings, none updated yet.
    pub fn from(ws: Vec<WidgetSettings>) -> (r: Self)
        ensures
            r.widgets@.len() == ws@.len(),
            forall|i: int| 0 <= i < ws@.len() ==> {
                &&& (#[trigger] r.widgets@[i]).settings@ == ws@[i]@
                &&& r.widgets@[i].value@ == ""@
                &&& r.widgets@[i].last_update == 0
            },
    {
        let mut ret: Vec<Widget> = Vec::new();
        let mut i: usize = 0;
        while i < ws.len()
            invariant
                i <= ws@.len(),
                ret@.len() == i,
                forall|j: int| 0 <= j < i ==> {
                    &&& (#[trigger] ret@[j]).settings@ == ws@[j]@
                    &&& ret@[j].value@ == ""@
                    &&& ret@[j].last_update == 0
                },
            decreases ws@.len() - i,
        {
            ret.push(Widget::new(ws[i].duplicate()));
            i = i + 1;
        }
        WidgetSegment { widgets: ret }
    }

    /// A copy of the segment.
    pub fn duplicate(&self) -> (r: Self)
        ensures
            r.widgets@.len() == self.widgets@.len(),
            forall|i: int| 0 <= i < self.widgets@.len() ==> {
                &&& (#[trigger] r.widgets@[i]).settings@ == self.widgets@[i].settings@
                &&& r.widgets@[i].value@ == self.widgets@[i].value@
                &&& r.widgets@[i].last_update == self.widgets@[i].last_update
            },
    {
        let mut ret: Vec<Widget> = Vec::new();
        let mut i: usize = 0;
        while i < self.widgets.len()
            invariant
                i <= self.widgets@.len(),
                ret@.len() == i,
                forall|j: int| 0 <= j < i ==> {
                    &&& (#[trigger] ret@[j]).settings@ == self.widgets@[j].settings@
                    &&& ret@[j].value@ == self.widgets@[j].value@
                    &&& ret@[j].last_update == self.widgets@[j].last_update
                },
            decreases self.widgets@.len() - i,
        {
            ret.push(self.widgets[i].duplicate());
            i = i + 1;
        }
        WidgetSegment { widgets: ret }
    }

    /// The text of the segment.
    pub fn _get_text(&self) -> (r: String)
        ensures
            r@ == widgets_text(self.widgets@),
    {
        let ghost ws = self.widgets@;
        let mut buffer = String::new();
        let mut last_sep = String::new();
        let mut i: usize = 0;
        proof {
            assert(ws.subrange(0, 0) =~= Seq::<Widget>::empty());
        }
        while i < self.widgets.len()
            invariant
                ws == self.widgets@,
                i <= ws.len(),
                buffer@ == widgets_body(ws.subrange(0, i as int)),
                i > 0 ==> last_sep@ == ws[i - 1].settings.separator@,
                i == 0 ==> last_sep@ == Seq::<char>::empty(),
            decreases ws.len() - i,
        {
            proof {
                assert(ws.subrange(0, i + 1).drop_last() =~= ws.subrange(0, i as int));
            }
            let value = self.widgets[i].value_with_separator();
            buffer.append(value.1.as_str());
            buffer.append(value.0.as_str());
            last_sep = value.1;
            proof {
                assert(buffer@ =~= widgets_body(ws.subrange(0, i + 1)));
            }
            i = i + 1;
        }
        proof {
            assert(ws.subrange(0, ws.len() as int) =~= ws);
        }
        buffer.append(last_sep.as_str());
        proof {
            if ws.len() == 0 {
                assert(buffer@ =~= Seq::<char>::empty());
            }
        }
        buffer
    }
}

} // verus!
