//! Embedder registry: which provider the command line selects, with which settings.

use crate::text;
use vstd::prelude::*;

verus! {

/// The dimensions of the null embedder where none are given.
pub const DEFAULT_DIMENSIONS: usize = 384;

/// Which provider was selected on the command line.
#[derive(Debug, Clone, Copy, PartialEq, Eq, Structural)]
pub enum EmbedderChoice {
    /// All-zero vectors, the default.
    Null,
    /// The OpenAI provider. Needs the `openai` feature.
    OpenAi,
    /// The Ollama provider. Needs the `ollama` feature.
    Ollama,
}

/// The provider that a name in small letters stands for.
pub open spec fn provider_named(s: Seq<char>) -> Option<EmbedderChoice> {
    if s == "null"@ {
        Some(EmbedderChoice::Null)
    } else if s == "openai"@ {
        Some(EmbedderChoice::OpenAi)
    } else if s == "ollama"@ {
        Some(EmbedderChoice::Ollama)
    } else {
        None
    }
}

impl EmbedderChoice {
    /// Reads `null`, `openai` or `ollama`, without regard to ASCII case.
    pub fn parse(s: &str) -> (r: Result<Self, String>)
        ensures
            match r {
                Ok(c) => provider_named(text::ascii_lowered(s@)) == Some(c),
                Err(e) => provider_named(text::ascii_lowered(s@)) is None && e@
                    == "unknown embedder '"@ + text::ascii_lowered(s@)
                    + "' (expected null|openai|ollama)"@,
            },
    {
        let low = text::to_ascii_lowercase(s);
        if text::same(&low, "null") {
            Ok(EmbedderChoice::Null)
        } else if text::same(&low, "openai") {
            Ok(EmbedderChoice::OpenAi)
        } else if text::same(&low, "ollama") {
            Ok(EmbedderChoice::Ollama)
        } else {
            let mut e = String::from_str("unknown embedder '");
            e.append(&low);
            e.append("' (expected null|openai|ollama)");
            Err(e)
        }
    }
}

/// Command line options that map onto an embedder.
#[derive(Debug, Clone)]
pub struct EmbedderOpts {
    /// Overrides the model.
    pub model: Option<String>,
    /// Overrides the API base URL.
    pub url: Option<String>,
    /// API key of OpenAI.
    pub api_key: Option<String>,
    /// Overrides the expected dimensionality.
    pub dimensions: Option<usize>,
}

impl Default for EmbedderOpts {
    fn default() -> (r: Self)
        ensures
            r.model is None && r.url is None && r.api_key is None && r.dimensions is None,
    {
        EmbedderOpts { model: None, url: None, api_key: None, dimensions: None }
    }
}

/// Which optional providers a build holds.
#[derive(Debug, Clone, Copy)]
pub struct EmbedderFeatures {
    /// The `openai` feature.
    pub openai: bool,
    /// The `ollama` feature.
    pub ollama: bool,
}

/// The embedder to construct. A setting that is `None` is left to the provider.
#[derive(Debug)]
pub enum EmbedderPlan {
    /// All-zero vectors of this many dimensions.
    Null {
        /// The dimensions.
        size: usize,
    },
    /// The OpenAI provider.
    OpenAi {
        /// API key.
        api_key: Option<String>,
        /// API base URL.
        url: Option<String>,
        /// Model.
        model: Option<String>,
        /// Dimensions.
        dimensions: Option<usize>,
    },
    /// The Ollama provider. It takes no API key.
    Ollama {
        /// API base URL.
        url: Option<String>,
        /// Model.
        model: Option<String>,
        /// Dimensions.
        dimensions: Option<usize>,
    },
}

/// What [`build_embedder`] makes of a choice and its options.
pub open spec fn planned(
    choice: EmbedderChoice,
    opts: EmbedderOpts,
    features: EmbedderFeatures,
    r: Result<EmbedderPlan, String>,
) -> bool {
    match choice {
        EmbedderChoice::Null => r == Ok::<EmbedderPlan, String>(
            EmbedderPlan::Null {
                size: match opts.dimensions {
                    Some(d) => d,
                    None => DEFAULT_DIMENSIONS,
                },
            },
        ),
        EmbedderChoice::OpenAi => if features.openai {
            r == Ok::<EmbedderPlan, String>(
                EmbedderPlan::OpenAi {
                    api_key: opts.api_key,
                    url: opts.url,
                    model: opts.model,
                    dimensions: opts.dimensions,
                },
            )
        } else {
            r matches Err(e) && e@ == "openai feature not enabled in this build"@
        },
        EmbedderChoice::Ollama => if features.ollama {
            r == Ok::<EmbedderPlan, String>(
                EmbedderPlan::Ollama {
                    url: opts.url,
                    model: opts.model,
                    dimensions: opts.dimensions,
                },
            )
        } else {
            r matches Err(e) && e@ == "ollama feature not enabled in this build"@
        },
    }
}

/// Which embedder to construct, in a build with these features.
pub fn build_embedder(
    choice: EmbedderChoice,
    opts: EmbedderOpts,
    features: EmbedderFeatures,
) -> (r: Result<EmbedderPlan, String>)
    ensures
        planned(choice, opts, features, r),
{
    match choice {
        EmbedderChoice::Null => {
            let size: usize = match opts.dimensions {
                Some(d) => d,
                None => DEFAULT_DIMENSIONS,
            };
            Ok(EmbedderPlan::Null { size })
        },
        EmbedderChoice::OpenAi => if features.openai {
            Ok(
                EmbedderPlan::OpenAi {
                    api_key: opts.api_key,
                    url: opts.url,
                    model: opts.model,
                    dimensions: opts.dimensions,
                },
            )
        } else {
            Err(String::from_str("openai feature not enabled in this build"))
        },
        EmbedderChoice::Ollama => if features.ollama {
            Ok(
                EmbedderPlan::Ollama {
                    url: opts.url,
                    model: opts.model,
                    dimensions: opts.dimensions,
                },
            )
        } else {
            Err(String::from_str("ollama feature not enabled in this build"))
        },
    }
}

/// Which embedder is built: the one that was chosen, with the options that were given and no
/// others, where the build holds it. The null embedder is always there.
pub proof fn law_the_chosen_embedder_is_built(
    choice: EmbedderChoice,
    opts: EmbedderOpts,
    features: EmbedderFeatures,
    r: Result<EmbedderPlan, String>,
)
    requires
        call_ensures(build_embedder, (choice, opts, features), r),
    ensures
        choice is Null ==> (r matches Ok(p) && p is Null),
        choice is OpenAi ==> (r is Ok <==> features.openai),
        choice is Ollama ==> (r is Ok <==> features.ollama),
        r matches Ok(p) ==> (p is Null <==> choice is Null) && (p is OpenAi <==> choice is OpenAi)
            && (p is Ollama <==> choice is Ollama),
        r matches Ok(EmbedderPlan::Null { size }) ==> (opts.dimensions matches Some(d) ==> size
            == d) && (opts.dimensions is None ==> size == 384),
        r matches Ok(EmbedderPlan::OpenAi { api_key, url, model, dimensions }) ==> api_key
            == opts.api_key && url == opts.url && model == opts.model && dimensions
            == opts.dimensions,
        r matches Ok(EmbedderPlan::Ollama { url, model, dimensions }) ==> url == opts.url && model
            == opts.model && dimensions == opts.dimensions,
{
}

/// Each embedder is named by one word, in whatever ASCII case, and no other word names one.
pub proof fn law_embedders_are_named(s: &str, r: Result<EmbedderChoice, String>)
    requires
        call_ensures(EmbedderChoice::parse, (s,), r),
    ensures
        r == Ok::<EmbedderChoice, String>(EmbedderChoice::Null) <==> text::ascii_lowered(s@)
            == "null"@,
        r == Ok::<EmbedderChoice, String>(EmbedderChoice::OpenAi) <==> text::ascii_lowered(s@)
            == "openai"@,
        r == Ok::<EmbedderChoice, String>(EmbedderChoice::Ollama) <==> text::ascii_lowered(s@)
            == "ollama"@,
{
    reveal_strlit("null");
    reveal_strlit("openai");
    reveal_strlit("ollama");
    assert("null"@[0] == 'n' && "openai"@[1] == 'p' && "ollama"@[1] == 'l');
}

} // verus!
